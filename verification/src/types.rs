//! What lanes, drives and their callers exchange.

use crate::json::Json;
use crate::model::event::{LaneQueuedItem, LaneQueuedItemView, RetryPolicy};
use crate::model::message::{AgentMessage, AgentMessageView, DeferredHandle, DeferredHandleView};
use crate::model::session::{
    CompactionSettings, InboxItem, InboxItemView, LaneConfiguration, LaneConfigurationView,
    Operation, OperationResultRecord, OperationResultRecordView, OperationView, PendingEntry,
    PendingEntryView, QueueMode, ReplayPolicy, StreamOptions, StreamOptionsView, ToolExecution,
};
use crate::model::storage::{NewEntry, NewEntryView, Write, WriteView};
use vstd::prelude::*;

verus! {

/// A tool that this process can run.
#[derive(Debug, PartialEq, Eq)]
pub struct ToolDescriptor {
    pub name: String,
    pub replay: Option<ReplayPolicy>,
}

/// Contents of a [`ToolDescriptor`].
pub struct ToolDescriptorView {
    pub name: Seq<char>,
    pub replay: Option<ReplayPolicy>,
}

impl DeepView for ToolDescriptor {
    type V = ToolDescriptorView;

    open spec fn deep_view(&self) -> ToolDescriptorView {
        ToolDescriptorView {
            name: self.name.deep_view(),
            replay: self.replay.deep_view(),
        }
    }
}

impl Clone for ToolDescriptor {
    fn clone(&self) -> (r: Self)
        ensures
            r.deep_view() == self.deep_view(),
    {
        ToolDescriptor {
            name: self.name.clone(),
            replay: self.replay,
        }
    }
}

/// A skill that a run may start from.
#[derive(Debug, PartialEq, Eq)]
pub struct Skill {
    pub name: String,
    pub definition: Json,
}

/// Contents of a [`Skill`].
pub struct SkillView {
    pub name: Seq<char>,
    pub definition: serde_json::Value,
}

impl DeepView for Skill {
    type V = SkillView;

    open spec fn deep_view(&self) -> SkillView {
        SkillView {
            name: self.name.deep_view(),
            definition: self.definition.deep_view(),
        }
    }
}

impl Clone for Skill {
    fn clone(&self) -> (r: Self)
        ensures
            r.deep_view() == self.deep_view(),
    {
        Skill {
            name: self.name.clone(),
            definition: self.definition.clone(),
        }
    }
}

/// A prompt template that a run may start from.
#[derive(Debug, PartialEq, Eq)]
pub struct PromptTemplate {
    pub name: String,
    pub definition: Json,
}

/// Contents of a [`PromptTemplate`].
pub struct PromptTemplateView {
    pub name: Seq<char>,
    pub definition: serde_json::Value,
}

impl DeepView for PromptTemplate {
    type V = PromptTemplateView;

    open spec fn deep_view(&self) -> PromptTemplateView {
        PromptTemplateView {
            name: self.name.deep_view(),
            definition: self.definition.deep_view(),
        }
    }
}

impl Clone for PromptTemplate {
    fn clone(&self) -> (r: Self)
        ensures
            r.deep_view() == self.deep_view(),
    {
        PromptTemplate {
            name: self.name.clone(),
            definition: self.definition.clone(),
        }
    }
}

/// Skills and templates of a harness.
#[derive(Debug, PartialEq, Eq)]
pub struct Resources {
    pub skills: Vec<Skill>,
    pub prompt_templates: Vec<PromptTemplate>,
}

/// Contents of a [`Resources`].
pub struct ResourcesView {
    pub skills: Seq<SkillView>,
    pub prompt_templates: Seq<PromptTemplateView>,
}

impl DeepView for Resources {
    type V = ResourcesView;

    open spec fn deep_view(&self) -> ResourcesView {
        ResourcesView {
            skills: self.skills.deep_view(),
            prompt_templates: self.prompt_templates.deep_view(),
        }
    }
}

impl Clone for Resources {
    fn clone(&self) -> (r: Self)
        ensures
            r.deep_view() == self.deep_view(),
    {
        Resources {
            skills: self.skills.clone(),
            prompt_templates: self.prompt_templates.clone(),
        }
    }
}

/// The system prompt, fixed or computed for each request.
#[derive(Debug, PartialEq, Eq)]
pub enum SystemPrompt {
    Static(String),
    Dynamic,
}

/// Contents of [`SystemPrompt`].
pub enum SystemPromptView {
    Static(Seq<char>),
    Dynamic,
}

impl DeepView for SystemPrompt {
    type V = SystemPromptView;

    open spec fn deep_view(&self) -> SystemPromptView {
        match self {
            SystemPrompt::Static(item) => SystemPromptView::Static(item.deep_view()),
            SystemPrompt::Dynamic => SystemPromptView::Dynamic,
        }
    }
}

impl Clone for SystemPrompt {
    fn clone(&self) -> (r: Self)
        ensures
            r.deep_view() == self.deep_view(),
    {
        match self {
            SystemPrompt::Static(item) => SystemPrompt::Static(item.clone()),
            SystemPrompt::Dynamic => SystemPrompt::Dynamic,
        }
    }
}

/// Settings of a harness.
#[derive(Debug, PartialEq, Eq)]
pub struct Config {
    pub tools: Vec<ToolDescriptor>,
    pub resources: Resources,
    pub stream_options: StreamOptions,
    pub retry_policy: RetryPolicy,
    pub compaction: CompactionSettings,
    pub steering_mode: QueueMode,
    pub follow_up_mode: QueueMode,
    pub tool_execution: ToolExecution,
    pub system_prompt: Option<SystemPrompt>,
    pub entry_projectors: Vec<String>,
}

/// Contents of a [`Config`].
pub struct ConfigView {
    pub tools: Seq<ToolDescriptorView>,
    pub resources: ResourcesView,
    pub stream_options: StreamOptionsView,
    pub retry_policy: RetryPolicy,
    pub compaction: CompactionSettings,
    pub steering_mode: QueueMode,
    pub follow_up_mode: QueueMode,
    pub tool_execution: ToolExecution,
    pub system_prompt: Option<SystemPromptView>,
    pub entry_projectors: Seq<Seq<char>>,
}

impl DeepView for Config {
    type V = ConfigView;

    open spec fn deep_view(&self) -> ConfigView {
        ConfigView {
            tools: self.tools.deep_view(),
            resources: self.resources.deep_view(),
            stream_options: self.stream_options.deep_view(),
            retry_policy: self.retry_policy.deep_view(),
            compaction: self.compaction.deep_view(),
            steering_mode: self.steering_mode.deep_view(),
            follow_up_mode: self.follow_up_mode.deep_view(),
            tool_execution: self.tool_execution.deep_view(),
            system_prompt: self.system_prompt.deep_view(),
            entry_projectors: self.entry_projectors.deep_view(),
        }
    }
}

impl Clone for Config {
    fn clone(&self) -> (r: Self)
        ensures
            r.deep_view() == self.deep_view(),
    {
        Config {
            tools: self.tools.clone(),
            resources: self.resources.clone(),
            stream_options: self.stream_options.clone(),
            retry_policy: self.retry_policy,
            compaction: self.compaction,
            steering_mode: self.steering_mode,
            follow_up_mode: self.follow_up_mode,
            tool_execution: self.tool_execution,
            system_prompt: self.system_prompt.clone(),
            entry_projectors: self.entry_projectors.clone(),
        }
    }
}

/// A lane as this process knows it.
#[derive(Debug, PartialEq, Eq)]
pub struct LaneRuntimeState {
    pub tip_id: Option<String>,
    pub configuration: LaneConfiguration,
    pub inbox: Vec<InboxItem>,
    pub last_operation_id: Option<String>,
    pub operation: Option<Operation>,
}

/// Contents of a [`LaneRuntimeState`].
pub struct LaneRuntimeStateView {
    pub tip_id: Option<Seq<char>>,
    pub configuration: LaneConfigurationView,
    pub inbox: Seq<InboxItemView>,
    pub last_operation_id: Option<Seq<char>>,
    pub operation: Option<OperationView>,
}

impl DeepView for LaneRuntimeState {
    type V = LaneRuntimeStateView;

    open spec fn deep_view(&self) -> LaneRuntimeStateView {
        LaneRuntimeStateView {
            tip_id: self.tip_id.deep_view(),
            configuration: self.configuration.deep_view(),
            inbox: self.inbox.deep_view(),
            last_operation_id: self.last_operation_id.deep_view(),
            operation: self.operation.deep_view(),
        }
    }
}

impl Clone for LaneRuntimeState {
    fn clone(&self) -> (r: Self)
        ensures
            r.deep_view() == self.deep_view(),
    {
        LaneRuntimeState {
            tip_id: self.tip_id.clone(),
            configuration: self.configuration.clone(),
            inbox: self.inbox.clone(),
            last_operation_id: self.last_operation_id.clone(),
            operation: self.operation.clone(),
        }
    }
}

/// Changes of a lane that go with a command: each part that is named takes the
/// place of what the lane has. A tip of nothing is the root.
#[derive(Debug, PartialEq, Eq)]
pub struct LanePatch {
    pub tip_id: Option<Option<String>>,
    pub configuration: Option<LaneConfiguration>,
    pub inbox: Option<Vec<InboxItem>>,
}

/// Contents of a [`LanePatch`].
pub struct LanePatchView {
    pub tip_id: Option<Option<Seq<char>>>,
    pub configuration: Option<LaneConfigurationView>,
    pub inbox: Option<Seq<InboxItemView>>,
}

impl DeepView for LanePatch {
    type V = LanePatchView;

    open spec fn deep_view(&self) -> LanePatchView {
        LanePatchView {
            tip_id: self.tip_id.deep_view(),
            configuration: self.configuration.deep_view(),
            inbox: self.inbox.deep_view(),
        }
    }
}

impl Clone for LanePatch {
    fn clone(&self) -> (r: Self)
        ensures
            r.deep_view() == self.deep_view(),
    {
        LanePatch {
            tip_id: match &self.tip_id {
                Some(tip_id) => Some(tip_id.clone()),
                None => None,
            },
            configuration: self.configuration.clone(),
            inbox: self.inbox.clone(),
        }
    }
}

/// Where a drive came to rest.
#[derive(Debug, PartialEq, Eq)]
pub enum DriveOutcome {
    Settled {
        outcome: OperationResultRecord,
    },
    WaitingRetry {
        operation_id: String,
        not_before: u64,
    },
    WaitingDeferred {
        operation_id: String,
        deferred: DeferredHandle,
    },
}

/// Contents of [`DriveOutcome`].
pub enum DriveOutcomeView {
    Settled {
        outcome: OperationResultRecordView,
    },
    WaitingRetry {
        operation_id: Seq<char>,
        not_before: u64,
    },
    WaitingDeferred {
        operation_id: Seq<char>,
        deferred: DeferredHandleView,
    },
}

impl DeepView for DriveOutcome {
    type V = DriveOutcomeView;

    open spec fn deep_view(&self) -> DriveOutcomeView {
        match self {
            DriveOutcome::Settled { outcome } => DriveOutcomeView::Settled {
                outcome: outcome.deep_view(),
            },
            DriveOutcome::WaitingRetry {
                operation_id,
                not_before,
            } => DriveOutcomeView::WaitingRetry {
                operation_id: operation_id.deep_view(),
                not_before: not_before.deep_view(),
            },
            DriveOutcome::WaitingDeferred {
                operation_id,
                deferred,
            } => DriveOutcomeView::WaitingDeferred {
                operation_id: operation_id.deep_view(),
                deferred: deferred.deep_view(),
            },
        }
    }
}

impl Clone for DriveOutcome {
    fn clone(&self) -> (r: Self)
        ensures
            r.deep_view() == self.deep_view(),
    {
        match self {
            DriveOutcome::Settled { outcome } => DriveOutcome::Settled {
                outcome: outcome.clone(),
            },
            DriveOutcome::WaitingRetry { operation_id, not_before } => DriveOutcome::WaitingRetry {
                operation_id: operation_id.clone(),
                not_before: *not_before,
            },
            DriveOutcome::WaitingDeferred {
                operation_id,
                deferred,
            } => DriveOutcome::WaitingDeferred {
                operation_id: operation_id.clone(),
                deferred: deferred.clone(),
            },
        }
    }
}

/// What one procedure of a drive came to.
#[allow(inconsistent_fields)]
#[derive(Debug, PartialEq, Eq)]
pub enum ProcedureResult {
    Continue,
    Waiting {
        outcome: DriveOutcome,
    },
    Settled {
        outcome: OperationResultRecord,
    },
}

/// Contents of [`ProcedureResult`].
#[allow(inconsistent_fields)]
pub enum ProcedureResultView {
    Continue,
    Waiting {
        outcome: DriveOutcomeView,
    },
    Settled {
        outcome: OperationResultRecordView,
    },
}

impl DeepView for ProcedureResult {
    type V = ProcedureResultView;

    open spec fn deep_view(&self) -> ProcedureResultView {
        match self {
            ProcedureResult::Continue => ProcedureResultView::Continue,
            ProcedureResult::Waiting { outcome } => ProcedureResultView::Waiting {
                outcome: outcome.deep_view(),
            },
            ProcedureResult::Settled { outcome } => ProcedureResultView::Settled {
                outcome: outcome.deep_view(),
            },
        }
    }
}

impl Clone for ProcedureResult {
    fn clone(&self) -> (r: Self)
        ensures
            r.deep_view() == self.deep_view(),
    {
        match self {
            ProcedureResult::Continue => ProcedureResult::Continue,
            ProcedureResult::Waiting { outcome } => ProcedureResult::Waiting {
                outcome: outcome.clone(),
            },
            ProcedureResult::Settled { outcome } => ProcedureResult::Settled {
                outcome: outcome.clone(),
            },
        }
    }
}

/// How an operation is driven.
#[derive(Debug, PartialEq, Eq)]
pub struct DriveOptions {
    pub operation_id: String,
    pub wait_for_retry: bool,
    pub poll_deferred: bool,
}

/// Contents of a [`DriveOptions`].
pub struct DriveOptionsView {
    pub operation_id: Seq<char>,
    pub wait_for_retry: bool,
    pub poll_deferred: bool,
}

impl DeepView for DriveOptions {
    type V = DriveOptionsView;

    open spec fn deep_view(&self) -> DriveOptionsView {
        DriveOptionsView {
            operation_id: self.operation_id.deep_view(),
            wait_for_retry: self.wait_for_retry.deep_view(),
            poll_deferred: self.poll_deferred.deep_view(),
        }
    }
}

impl Clone for DriveOptions {
    fn clone(&self) -> (r: Self)
        ensures
            r.deep_view() == self.deep_view(),
    {
        DriveOptions {
            operation_id: self.operation_id.clone(),
            wait_for_retry: self.wait_for_retry,
            poll_deferred: self.poll_deferred,
        }
    }
}

/// A boundary that finishes unless a hook adds to it.
#[derive(Debug, PartialEq, Eq)]
pub struct BoundaryFinishPending {
    pub entry_ids: Vec<String>,
}

/// Contents of a [`BoundaryFinishPending`].
pub struct BoundaryFinishPendingView {
    pub entry_ids: Seq<Seq<char>>,
}

impl DeepView for BoundaryFinishPending {
    type V = BoundaryFinishPendingView;

    open spec fn deep_view(&self) -> BoundaryFinishPendingView {
        BoundaryFinishPendingView {
            entry_ids: self.entry_ids.deep_view(),
        }
    }
}

impl Clone for BoundaryFinishPending {
    fn clone(&self) -> (r: Self)
        ensures
            r.deep_view() == self.deep_view(),
    {
        BoundaryFinishPending {
            entry_ids: self.entry_ids.clone(),
        }
    }
}

/// Inbox entries placed at a boundary.
#[derive(Debug, PartialEq, Eq)]
pub struct BoundaryPlacement {
    pub entries: Vec<NewEntry>,
    pub writes: Vec<Write>,
    pub tip_id: Option<String>,
    pub inbox: Vec<InboxItem>,
    pub trigger_entry_id: Option<String>,
    pub queues: Option<Vec<LaneQueuedItem>>,
}

/// Contents of a [`BoundaryPlacement`].
pub struct BoundaryPlacementView {
    pub entries: Seq<NewEntryView>,
    pub writes: Seq<WriteView>,
    pub tip_id: Option<Seq<char>>,
    pub inbox: Seq<InboxItemView>,
    pub trigger_entry_id: Option<Seq<char>>,
    pub queues: Option<Seq<LaneQueuedItemView>>,
}

impl DeepView for BoundaryPlacement {
    type V = BoundaryPlacementView;

    open spec fn deep_view(&self) -> BoundaryPlacementView {
        BoundaryPlacementView {
            entries: self.entries.deep_view(),
            writes: self.writes.deep_view(),
            tip_id: self.tip_id.deep_view(),
            inbox: self.inbox.deep_view(),
            trigger_entry_id: self.trigger_entry_id.deep_view(),
            queues: self.queues.deep_view(),
        }
    }
}

impl Clone for BoundaryPlacement {
    fn clone(&self) -> (r: Self)
        ensures
            r.deep_view() == self.deep_view(),
    {
        BoundaryPlacement {
            entries: self.entries.clone(),
            writes: self.writes.clone(),
            tip_id: self.tip_id.clone(),
            inbox: self.inbox.clone(),
            trigger_entry_id: self.trigger_entry_id.clone(),
            queues: self.queues.clone(),
        }
    }
}

/// What a checkpoint decided.
#[allow(inconsistent_fields)]
#[derive(Debug, PartialEq, Eq)]
pub enum CheckpointPlanned {
    Procedure(ProcedureResult),
    FinishPending(BoundaryFinishPending),
}

/// Contents of [`CheckpointPlanned`].
#[allow(inconsistent_fields)]
pub enum CheckpointPlannedView {
    Procedure(ProcedureResultView),
    FinishPending(BoundaryFinishPendingView),
}

impl DeepView for CheckpointPlanned {
    type V = CheckpointPlannedView;

    open spec fn deep_view(&self) -> CheckpointPlannedView {
        match self {
            CheckpointPlanned::Procedure(item) => CheckpointPlannedView::Procedure(item.deep_view()),
            CheckpointPlanned::FinishPending(item) => CheckpointPlannedView::FinishPending(item.deep_view()),
        }
    }
}

impl Clone for CheckpointPlanned {
    fn clone(&self) -> (r: Self)
        ensures
            r.deep_view() == self.deep_view(),
    {
        match self {
            CheckpointPlanned::Procedure(item) => CheckpointPlanned::Procedure(item.clone()),
            CheckpointPlanned::FinishPending(item) => CheckpointPlanned::FinishPending(item.clone()),
        }
    }
}

/// A request that this harness does not serve.
#[derive(Debug, PartialEq, Eq)]
pub struct SliceNotImplemented {
    pub operation: String,
}

/// Contents of a [`SliceNotImplemented`].
pub struct SliceNotImplementedView {
    pub operation: Seq<char>,
}

impl DeepView for SliceNotImplemented {
    type V = SliceNotImplementedView;

    open spec fn deep_view(&self) -> SliceNotImplementedView {
        SliceNotImplementedView {
            operation: self.operation.deep_view(),
        }
    }
}

impl Clone for SliceNotImplemented {
    fn clone(&self) -> (r: Self)
        ensures
            r.deep_view() == self.deep_view(),
    {
        SliceNotImplemented {
            operation: self.operation.clone(),
        }
    }
}

/// Why a request to a lane or harness was refused.
#[derive(Debug, PartialEq, Eq)]
pub enum HarnessError {
    Closed {
        message: String,
    },
    LaneBusy {
        lane: String,
        operation_id: String,
        kind: String,
        message: String,
    },
    InvalidMessage {
        lane: String,
        reason: String,
        message: String,
    },
    InvalidNavigation {
        lane: String,
        reason: String,
        message: String,
    },
    InvalidLane {
        lane: String,
        reason: String,
        message: String,
    },
    UnknownTarget {
        target_id: String,
        message: String,
    },
    UnknownSkill {
        name: String,
        message: String,
    },
    UnknownTemplate {
        name: String,
        message: String,
    },
    OperationMismatch {
        lane: String,
        expected: String,
        current: Option<String>,
        last: Option<String>,
        message: String,
    },
    NothingToCompact {
        lane: String,
        message: String,
    },
    NothingToResume {
        lane: String,
        message: String,
    },
    NoActiveOperation {
        lane: String,
        message: String,
    },
}

/// Contents of [`HarnessError`].
pub enum HarnessErrorView {
    Closed {
        message: Seq<char>,
    },
    LaneBusy {
        lane: Seq<char>,
        operation_id: Seq<char>,
        kind: Seq<char>,
        message: Seq<char>,
    },
    InvalidMessage {
        lane: Seq<char>,
        reason: Seq<char>,
        message: Seq<char>,
    },
    InvalidNavigation {
        lane: Seq<char>,
        reason: Seq<char>,
        message: Seq<char>,
    },
    InvalidLane {
        lane: Seq<char>,
        reason: Seq<char>,
        message: Seq<char>,
    },
    UnknownTarget {
        target_id: Seq<char>,
        message: Seq<char>,
    },
    UnknownSkill {
        name: Seq<char>,
        message: Seq<char>,
    },
    UnknownTemplate {
        name: Seq<char>,
        message: Seq<char>,
    },
    OperationMismatch {
        lane: Seq<char>,
        expected: Seq<char>,
        current: Option<Seq<char>>,
        last: Option<Seq<char>>,
        message: Seq<char>,
    },
    NothingToCompact {
        lane: Seq<char>,
        message: Seq<char>,
    },
    NothingToResume {
        lane: Seq<char>,
        message: Seq<char>,
    },
    NoActiveOperation {
        lane: Seq<char>,
        message: Seq<char>,
    },
}

impl DeepView for HarnessError {
    type V = HarnessErrorView;

    open spec fn deep_view(&self) -> HarnessErrorView {
        match self {
            HarnessError::Closed { message } => HarnessErrorView::Closed {
                message: message.deep_view(),
            },
            HarnessError::LaneBusy {
                lane,
                operation_id,
                kind,
                message,
            } => HarnessErrorView::LaneBusy {
                lane: lane.deep_view(),
                operation_id: operation_id.deep_view(),
                kind: kind.deep_view(),
                message: message.deep_view(),
            },
            HarnessError::InvalidMessage {
                lane,
                reason,
                message,
            } => HarnessErrorView::InvalidMessage {
                lane: lane.deep_view(),
                reason: reason.deep_view(),
                message: message.deep_view(),
            },
            HarnessError::InvalidNavigation {
                lane,
                reason,
                message,
            } => HarnessErrorView::InvalidNavigation {
                lane: lane.deep_view(),
                reason: reason.deep_view(),
                message: message.deep_view(),
            },
            HarnessError::InvalidLane { lane, reason, message } => HarnessErrorView::InvalidLane {
                lane: lane.deep_view(),
                reason: reason.deep_view(),
                message: message.deep_view(),
            },
            HarnessError::UnknownTarget { target_id, message } => HarnessErrorView::UnknownTarget {
                target_id: target_id.deep_view(),
                message: message.deep_view(),
            },
            HarnessError::UnknownSkill { name, message } => HarnessErrorView::UnknownSkill {
                name: name.deep_view(),
                message: message.deep_view(),
            },
            HarnessError::UnknownTemplate { name, message } => HarnessErrorView::UnknownTemplate {
                name: name.deep_view(),
                message: message.deep_view(),
            },
            HarnessError::OperationMismatch {
                lane,
                expected,
                current,
                last,
                message,
            } => HarnessErrorView::OperationMismatch {
                lane: lane.deep_view(),
                expected: expected.deep_view(),
                current: current.deep_view(),
                last: last.deep_view(),
                message: message.deep_view(),
            },
            HarnessError::NothingToCompact { lane, message } => HarnessErrorView::NothingToCompact {
                lane: lane.deep_view(),
                message: message.deep_view(),
            },
            HarnessError::NothingToResume { lane, message } => HarnessErrorView::NothingToResume {
                lane: lane.deep_view(),
                message: message.deep_view(),
            },
            HarnessError::NoActiveOperation {
                lane,
                message,
            } => HarnessErrorView::NoActiveOperation {
                lane: lane.deep_view(),
                message: message.deep_view(),
            },
        }
    }
}

impl Clone for HarnessError {
    fn clone(&self) -> (r: Self)
        ensures
            r.deep_view() == self.deep_view(),
    {
        match self {
            HarnessError::Closed { message } => HarnessError::Closed {
                message: message.clone(),
            },
            HarnessError::LaneBusy { lane, operation_id, kind, message } => HarnessError::LaneBusy {
                lane: lane.clone(),
                operation_id: operation_id.clone(),
                kind: kind.clone(),
                message: message.clone(),
            },
            HarnessError::InvalidMessage { lane, reason, message } => HarnessError::InvalidMessage {
                lane: lane.clone(),
                reason: reason.clone(),
                message: message.clone(),
            },
            HarnessError::InvalidNavigation {
                lane,
                reason,
                message,
            } => HarnessError::InvalidNavigation {
                lane: lane.clone(),
                reason: reason.clone(),
                message: message.clone(),
            },
            HarnessError::InvalidLane { lane, reason, message } => HarnessError::InvalidLane {
                lane: lane.clone(),
                reason: reason.clone(),
                message: message.clone(),
            },
            HarnessError::UnknownTarget { target_id, message } => HarnessError::UnknownTarget {
                target_id: target_id.clone(),
                message: message.clone(),
            },
            HarnessError::UnknownSkill { name, message } => HarnessError::UnknownSkill {
                name: name.clone(),
                message: message.clone(),
            },
            HarnessError::UnknownTemplate { name, message } => HarnessError::UnknownTemplate {
                name: name.clone(),
                message: message.clone(),
            },
            HarnessError::OperationMismatch {
                lane,
                expected,
                current,
                last,
                message,
            } => HarnessError::OperationMismatch {
                lane: lane.clone(),
                expected: expected.clone(),
                current: current.clone(),
                last: last.clone(),
                message: message.clone(),
            },
            HarnessError::NothingToCompact { lane, message } => HarnessError::NothingToCompact {
                lane: lane.clone(),
                message: message.clone(),
            },
            HarnessError::NothingToResume { lane, message } => HarnessError::NothingToResume {
                lane: lane.clone(),
                message: message.clone(),
            },
            HarnessError::NoActiveOperation { lane, message } => HarnessError::NoActiveOperation {
                lane: lane.clone(),
                message: message.clone(),
            },
        }
    }
}

/// What a lane is asked to do.
#[derive(Debug, PartialEq, Eq)]
pub enum OperationRequest {
    Prompt {
        operation_id: Option<String>,
        prompt: Json,
        images: Option<Vec<Json>>,
    },
    Skill {
        operation_id: Option<String>,
        name: String,
        additional_instructions: Option<String>,
    },
    PromptTemplate {
        operation_id: Option<String>,
        name: String,
        args: Option<Vec<String>>,
    },
    Compaction {
        operation_id: Option<String>,
        custom_instructions: Option<String>,
    },
    Navigation {
        operation_id: Option<String>,
        target_id: Option<String>,
        summarize: bool,
        label: Option<String>,
        custom_instructions: Option<String>,
    },
}

/// Contents of [`OperationRequest`].
pub enum OperationRequestView {
    Prompt {
        operation_id: Option<Seq<char>>,
        prompt: serde_json::Value,
        images: Option<Seq<serde_json::Value>>,
    },
    Skill {
        operation_id: Option<Seq<char>>,
        name: Seq<char>,
        additional_instructions: Option<Seq<char>>,
    },
    PromptTemplate {
        operation_id: Option<Seq<char>>,
        name: Seq<char>,
        args: Option<Seq<Seq<char>>>,
    },
    Compaction {
        operation_id: Option<Seq<char>>,
        custom_instructions: Option<Seq<char>>,
    },
    Navigation {
        operation_id: Option<Seq<char>>,
        target_id: Option<Seq<char>>,
        summarize: bool,
        label: Option<Seq<char>>,
        custom_instructions: Option<Seq<char>>,
    },
}

impl DeepView for OperationRequest {
    type V = OperationRequestView;

    open spec fn deep_view(&self) -> OperationRequestView {
        match self {
            OperationRequest::Prompt {
                operation_id,
                prompt,
                images,
            } => OperationRequestView::Prompt {
                operation_id: operation_id.deep_view(),
                prompt: prompt.deep_view(),
                images: images.deep_view(),
            },
            OperationRequest::Skill {
                operation_id,
                name,
                additional_instructions,
            } => OperationRequestView::Skill {
                operation_id: operation_id.deep_view(),
                name: name.deep_view(),
                additional_instructions: additional_instructions.deep_view(),
            },
            OperationRequest::PromptTemplate {
                operation_id,
                name,
                args,
            } => OperationRequestView::PromptTemplate {
                operation_id: operation_id.deep_view(),
                name: name.deep_view(),
                args: args.deep_view(),
            },
            OperationRequest::Compaction {
                operation_id,
                custom_instructions,
            } => OperationRequestView::Compaction {
                operation_id: operation_id.deep_view(),
                custom_instructions: custom_instructions.deep_view(),
            },
            OperationRequest::Navigation {
                operation_id,
                target_id,
                summarize,
                label,
                custom_instructions,
            } => OperationRequestView::Navigation {
                operation_id: operation_id.deep_view(),
                target_id: target_id.deep_view(),
                summarize: summarize.deep_view(),
                label: label.deep_view(),
                custom_instructions: custom_instructions.deep_view(),
            },
        }
    }
}

impl Clone for OperationRequest {
    fn clone(&self) -> (r: Self)
        ensures
            r.deep_view() == self.deep_view(),
    {
        match self {
            OperationRequest::Prompt { operation_id, prompt, images } => OperationRequest::Prompt {
                operation_id: operation_id.clone(),
                prompt: prompt.clone(),
                images: images.clone(),
            },
            OperationRequest::Skill {
                operation_id,
                name,
                additional_instructions,
            } => OperationRequest::Skill {
                operation_id: operation_id.clone(),
                name: name.clone(),
                additional_instructions: additional_instructions.clone(),
            },
            OperationRequest::PromptTemplate {
                operation_id,
                name,
                args,
            } => OperationRequest::PromptTemplate {
                operation_id: operation_id.clone(),
                name: name.clone(),
                args: args.clone(),
            },
            OperationRequest::Compaction {
                operation_id,
                custom_instructions,
            } => OperationRequest::Compaction {
                operation_id: operation_id.clone(),
                custom_instructions: custom_instructions.clone(),
            },
            OperationRequest::Navigation {
                operation_id,
                target_id,
                summarize,
                label,
                custom_instructions,
            } => OperationRequest::Navigation {
                operation_id: operation_id.clone(),
                target_id: target_id.clone(),
                summarize: *summarize,
                label: label.clone(),
                custom_instructions: custom_instructions.clone(),
            },
        }
    }
}

/// An accepted operation.
#[derive(Debug, PartialEq, Eq)]
pub struct OperationAdmission {
    pub operation_id: String,
    pub kind: String,
    pub started_at: u64,
}

/// Contents of an [`OperationAdmission`].
pub struct OperationAdmissionView {
    pub operation_id: Seq<char>,
    pub kind: Seq<char>,
    pub started_at: u64,
}

impl DeepView for OperationAdmission {
    type V = OperationAdmissionView;

    open spec fn deep_view(&self) -> OperationAdmissionView {
        OperationAdmissionView {
            operation_id: self.operation_id.deep_view(),
            kind: self.kind.deep_view(),
            started_at: self.started_at.deep_view(),
        }
    }
}

impl Clone for OperationAdmission {
    fn clone(&self) -> (r: Self)
        ensures
            r.deep_view() == self.deep_view(),
    {
        OperationAdmission {
            operation_id: self.operation_id.clone(),
            kind: self.kind.clone(),
            started_at: self.started_at,
        }
    }
}

/// An operation that is still open.
#[derive(Debug, PartialEq, Eq)]
pub struct OpenOperation {
    pub lane: String,
    pub operation_id: String,
    pub kind: String,
    pub started_at: u64,
    pub aborting: Option<bool>,
}

/// Contents of an [`OpenOperation`].
pub struct OpenOperationView {
    pub lane: Seq<char>,
    pub operation_id: Seq<char>,
    pub kind: Seq<char>,
    pub started_at: u64,
    pub aborting: Option<bool>,
}

impl DeepView for OpenOperation {
    type V = OpenOperationView;

    open spec fn deep_view(&self) -> OpenOperationView {
        OpenOperationView {
            lane: self.lane.deep_view(),
            operation_id: self.operation_id.deep_view(),
            kind: self.kind.deep_view(),
            started_at: self.started_at.deep_view(),
            aborting: self.aborting.deep_view(),
        }
    }
}

impl Clone for OpenOperation {
    fn clone(&self) -> (r: Self)
        ensures
            r.deep_view() == self.deep_view(),
    {
        OpenOperation {
            lane: self.lane.clone(),
            operation_id: self.operation_id.clone(),
            kind: self.kind.clone(),
            started_at: self.started_at,
            aborting: self.aborting,
        }
    }
}

/// A queued entry.
#[derive(Debug, PartialEq, Eq)]
pub struct QueueEntry {
    pub entry_id: String,
}

/// Contents of a [`QueueEntry`].
pub struct QueueEntryView {
    pub entry_id: Seq<char>,
}

impl DeepView for QueueEntry {
    type V = QueueEntryView;

    open spec fn deep_view(&self) -> QueueEntryView {
        QueueEntryView {
            entry_id: self.entry_id.deep_view(),
        }
    }
}

impl Clone for QueueEntry {
    fn clone(&self) -> (r: Self)
        ensures
            r.deep_view() == self.deep_view(),
    {
        QueueEntry {
            entry_id: self.entry_id.clone(),
        }
    }
}

/// Answer to a request to abort.
#[derive(Debug, PartialEq, Eq)]
pub struct AbortRequest {
    pub operation_id: String,
    pub newly_requested: bool,
    pub steer: Vec<AgentMessage>,
    pub follow_up: Vec<AgentMessage>,
}

/// Contents of an [`AbortRequest`].
pub struct AbortRequestView {
    pub operation_id: Seq<char>,
    pub newly_requested: bool,
    pub steer: Seq<AgentMessageView>,
    pub follow_up: Seq<AgentMessageView>,
}

impl DeepView for AbortRequest {
    type V = AbortRequestView;

    open spec fn deep_view(&self) -> AbortRequestView {
        AbortRequestView {
            operation_id: self.operation_id.deep_view(),
            newly_requested: self.newly_requested.deep_view(),
            steer: self.steer.deep_view(),
            follow_up: self.follow_up.deep_view(),
        }
    }
}

impl Clone for AbortRequest {
    fn clone(&self) -> (r: Self)
        ensures
            r.deep_view() == self.deep_view(),
    {
        AbortRequest {
            operation_id: self.operation_id.clone(),
            newly_requested: self.newly_requested,
            steer: self.steer.clone(),
            follow_up: self.follow_up.clone(),
        }
    }
}

/// What became of a queued entry that was to be cancelled.
#[derive(Clone, Copy, Debug, PartialEq, Eq, Structural)]
pub enum CancelQueuedKind {
    Cancelled,
    AlreadyConsumed,
    NotFound,
}

impl DeepView for CancelQueuedKind {
    type V = CancelQueuedKind;

    open spec fn deep_view(&self) -> CancelQueuedKind {
        *self
    }
}

/// A recorded usage row.
#[derive(Debug, PartialEq, Eq)]
pub struct RecordUsageOutcome {
    pub usage_id: String,
}

/// Contents of a [`RecordUsageOutcome`].
pub struct RecordUsageOutcomeView {
    pub usage_id: Seq<char>,
}

impl DeepView for RecordUsageOutcome {
    type V = RecordUsageOutcomeView;

    open spec fn deep_view(&self) -> RecordUsageOutcomeView {
        RecordUsageOutcomeView {
            usage_id: self.usage_id.deep_view(),
        }
    }
}

impl Clone for RecordUsageOutcome {
    fn clone(&self) -> (r: Self)
        ensures
            r.deep_view() == self.deep_view(),
    {
        RecordUsageOutcome {
            usage_id: self.usage_id.clone(),
        }
    }
}

/// What was found for a queued entry.
#[allow(inconsistent_fields)]
#[derive(Debug, PartialEq, Eq)]
pub enum PendingPayload {
    Decoded(PendingEntry),
    /// The stored value does not decode, with the reason.
    Undecodable(String),
}

/// Contents of [`PendingPayload`].
#[allow(inconsistent_fields)]
pub enum PendingPayloadView {
    Decoded(PendingEntryView),
    Undecodable(Seq<char>),
}

impl DeepView for PendingPayload {
    type V = PendingPayloadView;

    open spec fn deep_view(&self) -> PendingPayloadView {
        match self {
            PendingPayload::Decoded(item) => PendingPayloadView::Decoded(item.deep_view()),
            PendingPayload::Undecodable(item) => PendingPayloadView::Undecodable(item.deep_view()),
        }
    }
}

impl Clone for PendingPayload {
    fn clone(&self) -> (r: Self)
        ensures
            r.deep_view() == self.deep_view(),
    {
        match self {
            PendingPayload::Decoded(item) => PendingPayload::Decoded(item.clone()),
            PendingPayload::Undecodable(item) => PendingPayload::Undecodable(item.clone()),
        }
    }
}

/// A stored payload of a queued entry.
#[derive(Debug, PartialEq, Eq)]
pub struct PendingRow {
    pub entry_id: String,
    pub payload: PendingPayload,
}

/// Contents of a [`PendingRow`].
pub struct PendingRowView {
    pub entry_id: Seq<char>,
    pub payload: PendingPayloadView,
}

impl DeepView for PendingRow {
    type V = PendingRowView;

    open spec fn deep_view(&self) -> PendingRowView {
        PendingRowView {
            entry_id: self.entry_id.deep_view(),
            payload: self.payload.deep_view(),
        }
    }
}

impl Clone for PendingRow {
    fn clone(&self) -> (r: Self)
        ensures
            r.deep_view() == self.deep_view(),
    {
        PendingRow {
            entry_id: self.entry_id.clone(),
            payload: self.payload.clone(),
        }
    }
}

} // verus!
