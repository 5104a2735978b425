//! Durable state of lanes and of the operations that run on them.

use crate::json::Json;
use crate::model::message::{AgentMessage, AgentMessageView};
use vstd::prelude::*;

verus! {

/// How much a model may think.
#[derive(Clone, Copy, Debug, PartialEq, Eq, Structural)]
pub enum ThinkingLevel {
    Off,
    Minimal,
    Low,
    Medium,
    High,
    ExtraHigh,
}

impl DeepView for ThinkingLevel {
    type V = ThinkingLevel;

    open spec fn deep_view(&self) -> ThinkingLevel {
        *self
    }
}

/// How many queued items of a kind one boundary takes.
#[derive(Clone, Copy, Debug, PartialEq, Eq, Structural)]
pub enum QueueMode {
    All,
    OneAtATime,
}

impl DeepView for QueueMode {
    type V = QueueMode;

    open spec fn deep_view(&self) -> QueueMode {
        *self
    }
}

/// Whether the calls of a batch run one after another.
#[derive(Clone, Copy, Debug, PartialEq, Eq, Structural)]
pub enum ToolExecution {
    Sequential,
    Parallel,
}

impl DeepView for ToolExecution {
    type V = ToolExecution;

    open spec fn deep_view(&self) -> ToolExecution {
        *self
    }
}

/// Whether an interrupted tool may run again.
#[derive(Clone, Copy, Debug, PartialEq, Eq, Structural)]
pub enum ReplayPolicy {
    Never,
    Safe,
}

impl DeepView for ReplayPolicy {
    type V = ReplayPolicy;

    open spec fn deep_view(&self) -> ReplayPolicy {
        *self
    }
}

/// What an inbox item is for.
#[derive(Clone, Copy, Debug, PartialEq, Eq, Structural)]
pub enum InboxItemKind {
    Steer,
    FollowUp,
    NextRun,
    Write,
}

impl DeepView for InboxItemKind {
    type V = InboxItemKind;

    open spec fn deep_view(&self) -> InboxItemKind {
        *self
    }
}

/// How an operation ended.
#[derive(Clone, Copy, Debug, PartialEq, Eq, Structural)]
pub enum TerminalStatus {
    Completed,
    Failed,
    Aborted,
    Declined,
}

impl DeepView for TerminalStatus {
    type V = TerminalStatus;

    open spec fn deep_view(&self) -> TerminalStatus {
        *self
    }
}

/// Whether an operation may go on.
#[derive(Clone, Copy, Debug, PartialEq, Eq, Structural)]
pub enum Control {
    Running,
    CancelRequested {
        requested_at: u64,
    },
}

impl DeepView for Control {
    type V = Control;

    open spec fn deep_view(&self) -> Control {
        *self
    }
}

/// What a run does after a checkpoint.
#[derive(Clone, Copy, Debug, PartialEq, Eq, Structural)]
pub enum Continuation {
    NeedAssistant {
        overflow_recovery_used: bool,
    },
    MayFinish {
        include_final_assistant: bool,
    },
}

impl DeepView for Continuation {
    type V = Continuation;

    open spec fn deep_view(&self) -> Continuation {
        *self
    }
}

/// Names a model of a provider.
#[derive(Debug, PartialEq, Eq)]
pub struct ModelIdentity {
    pub provider: String,
    pub model_id: String,
}

/// Contents of a [`ModelIdentity`].
pub struct ModelIdentityView {
    pub provider: Seq<char>,
    pub model_id: Seq<char>,
}

impl DeepView for ModelIdentity {
    type V = ModelIdentityView;

    open spec fn deep_view(&self) -> ModelIdentityView {
        ModelIdentityView {
            provider: self.provider.deep_view(),
            model_id: self.model_id.deep_view(),
        }
    }
}

impl Clone for ModelIdentity {
    fn clone(&self) -> (r: Self)
        ensures
            r.deep_view() == self.deep_view(),
    {
        ModelIdentity {
            provider: self.provider.clone(),
            model_id: self.model_id.clone(),
        }
    }
}

/// What a lane generates with.
#[derive(Debug, PartialEq, Eq)]
pub struct LaneConfiguration {
    pub model: ModelIdentity,
    pub thinking_level: ThinkingLevel,
    pub active_tool_names: Vec<String>,
}

/// Contents of a [`LaneConfiguration`].
pub struct LaneConfigurationView {
    pub model: ModelIdentityView,
    pub thinking_level: ThinkingLevel,
    pub active_tool_names: Seq<Seq<char>>,
}

impl DeepView for LaneConfiguration {
    type V = LaneConfigurationView;

    open spec fn deep_view(&self) -> LaneConfigurationView {
        LaneConfigurationView {
            model: self.model.deep_view(),
            thinking_level: self.thinking_level.deep_view(),
            active_tool_names: self.active_tool_names.deep_view(),
        }
    }
}

impl Clone for LaneConfiguration {
    fn clone(&self) -> (r: Self)
        ensures
            r.deep_view() == self.deep_view(),
    {
        LaneConfiguration {
            model: self.model.clone(),
            thinking_level: self.thinking_level,
            active_tool_names: self.active_tool_names.clone(),
        }
    }
}

/// When and how a transcript is compacted.
#[derive(Clone, Copy, Debug, PartialEq, Eq, Structural)]
pub struct CompactionSettings {
    pub enabled: bool,
    pub reserve_tokens: u64,
    pub keep_recent_tokens: u64,
}

impl DeepView for CompactionSettings {
    type V = CompactionSettings;

    open spec fn deep_view(&self) -> CompactionSettings {
        *self
    }
}

/// Settings captured when an operation is accepted.
#[derive(Clone, Copy, Debug, PartialEq, Eq, Structural)]
pub struct RunSettings {
    pub compaction: CompactionSettings,
    pub steering_mode: QueueMode,
    pub follow_up_mode: QueueMode,
    pub tool_execution: ToolExecution,
}

impl DeepView for RunSettings {
    type V = RunSettings;

    open spec fn deep_view(&self) -> RunSettings {
        *self
    }
}

/// What every ordinary state of an operation carries.
#[derive(Debug, PartialEq, Eq)]
pub struct OperationScope {
    pub control: Control,
    pub settings: RunSettings,
    pub latest_assistant_entry_id: Option<String>,
}

/// Contents of an [`OperationScope`].
pub struct OperationScopeView {
    pub control: Control,
    pub settings: RunSettings,
    pub latest_assistant_entry_id: Option<Seq<char>>,
}

impl DeepView for OperationScope {
    type V = OperationScopeView;

    open spec fn deep_view(&self) -> OperationScopeView {
        OperationScopeView {
            control: self.control.deep_view(),
            settings: self.settings.deep_view(),
            latest_assistant_entry_id: self.latest_assistant_entry_id.deep_view(),
        }
    }
}

impl Clone for OperationScope {
    fn clone(&self) -> (r: Self)
        ensures
            r.deep_view() == self.deep_view(),
    {
        OperationScope {
            control: self.control,
            settings: self.settings,
            latest_assistant_entry_id: self.latest_assistant_entry_id.clone(),
        }
    }
}

/// One request header.
#[derive(Debug, PartialEq, Eq)]
pub struct Header {
    pub name: String,
    pub value: String,
}

/// Contents of a [`Header`].
pub struct HeaderView {
    pub name: Seq<char>,
    pub value: Seq<char>,
}

impl DeepView for Header {
    type V = HeaderView;

    open spec fn deep_view(&self) -> HeaderView {
        HeaderView {
            name: self.name.deep_view(),
            value: self.value.deep_view(),
        }
    }
}

impl Clone for Header {
    fn clone(&self) -> (r: Self)
        ensures
            r.deep_view() == self.deep_view(),
    {
        Header {
            name: self.name.clone(),
            value: self.value.clone(),
        }
    }
}

/// Options of a provider request.
#[derive(Debug, PartialEq, Eq)]
pub struct StreamOptions {
    pub deferred: Option<Json>,
    pub headers: Option<Vec<Header>>,
    pub timeout_ms: Option<u64>,
    pub max_retries: Option<u64>,
    pub max_retry_delay_ms: Option<u64>,
}

/// Contents of a [`StreamOptions`].
pub struct StreamOptionsView {
    pub deferred: Option<serde_json::Value>,
    pub headers: Option<Seq<HeaderView>>,
    pub timeout_ms: Option<u64>,
    pub max_retries: Option<u64>,
    pub max_retry_delay_ms: Option<u64>,
}

impl DeepView for StreamOptions {
    type V = StreamOptionsView;

    open spec fn deep_view(&self) -> StreamOptionsView {
        StreamOptionsView {
            deferred: self.deferred.deep_view(),
            headers: self.headers.deep_view(),
            timeout_ms: self.timeout_ms.deep_view(),
            max_retries: self.max_retries.deep_view(),
            max_retry_delay_ms: self.max_retry_delay_ms.deep_view(),
        }
    }
}

impl Clone for StreamOptions {
    fn clone(&self) -> (r: Self)
        ensures
            r.deep_view() == self.deep_view(),
    {
        StreamOptions {
            deferred: self.deferred.clone(),
            headers: self.headers.clone(),
            timeout_ms: self.timeout_ms,
            max_retries: self.max_retries,
            max_retry_delay_ms: self.max_retry_delay_ms,
        }
    }
}

/// Retry limits of one generation.
#[derive(Clone, Copy, Debug, PartialEq, Eq, Structural)]
pub struct NormalizedRetryPolicy {
    pub max_attempts: u32,
    pub base_delay_ms: u64,
    pub max_agent_delay_ms: u64,
}

impl DeepView for NormalizedRetryPolicy {
    type V = NormalizedRetryPolicy;

    open spec fn deep_view(&self) -> NormalizedRetryPolicy {
        *self
    }
}

/// What one assistant step generates with.
#[derive(Debug, PartialEq, Eq)]
pub struct GenerationContext {
    pub step_id: String,
    pub trigger_entry_id: String,
    pub configuration: LaneConfiguration,
    pub stream_options: StreamOptions,
    pub retry_policy: NormalizedRetryPolicy,
    pub overflow_recovery_used: bool,
}

/// Contents of a [`GenerationContext`].
pub struct GenerationContextView {
    pub step_id: Seq<char>,
    pub trigger_entry_id: Seq<char>,
    pub configuration: LaneConfigurationView,
    pub stream_options: StreamOptionsView,
    pub retry_policy: NormalizedRetryPolicy,
    pub overflow_recovery_used: bool,
}

impl DeepView for GenerationContext {
    type V = GenerationContextView;

    open spec fn deep_view(&self) -> GenerationContextView {
        GenerationContextView {
            step_id: self.step_id.deep_view(),
            trigger_entry_id: self.trigger_entry_id.deep_view(),
            configuration: self.configuration.deep_view(),
            stream_options: self.stream_options.deep_view(),
            retry_policy: self.retry_policy.deep_view(),
            overflow_recovery_used: self.overflow_recovery_used.deep_view(),
        }
    }
}

impl Clone for GenerationContext {
    fn clone(&self) -> (r: Self)
        ensures
            r.deep_view() == self.deep_view(),
    {
        GenerationContext {
            step_id: self.step_id.clone(),
            trigger_entry_id: self.trigger_entry_id.clone(),
            configuration: self.configuration.clone(),
            stream_options: self.stream_options.clone(),
            retry_policy: self.retry_policy,
            overflow_recovery_used: self.overflow_recovery_used,
        }
    }
}

/// Scope of a run that waits for a deferred response.
#[derive(Debug, PartialEq, Eq)]
pub struct DeferredScope {
    pub control: Control,
    pub settings: RunSettings,
    pub latest_assistant_entry_id: Option<String>,
    pub step_id: String,
    pub source_entry_id: String,
    pub poll: u64,
    pub configuration: LaneConfiguration,
    pub stream_options: StreamOptions,
}

/// Contents of a [`DeferredScope`].
pub struct DeferredScopeView {
    pub control: Control,
    pub settings: RunSettings,
    pub latest_assistant_entry_id: Option<Seq<char>>,
    pub step_id: Seq<char>,
    pub source_entry_id: Seq<char>,
    pub poll: u64,
    pub configuration: LaneConfigurationView,
    pub stream_options: StreamOptionsView,
}

impl DeepView for DeferredScope {
    type V = DeferredScopeView;

    open spec fn deep_view(&self) -> DeferredScopeView {
        DeferredScopeView {
            control: self.control.deep_view(),
            settings: self.settings.deep_view(),
            latest_assistant_entry_id: self.latest_assistant_entry_id.deep_view(),
            step_id: self.step_id.deep_view(),
            source_entry_id: self.source_entry_id.deep_view(),
            poll: self.poll.deep_view(),
            configuration: self.configuration.deep_view(),
            stream_options: self.stream_options.deep_view(),
        }
    }
}

impl Clone for DeferredScope {
    fn clone(&self) -> (r: Self)
        ensures
            r.deep_view() == self.deep_view(),
    {
        DeferredScope {
            control: self.control,
            settings: self.settings,
            latest_assistant_entry_id: self.latest_assistant_entry_id.clone(),
            step_id: self.step_id.clone(),
            source_entry_id: self.source_entry_id.clone(),
            poll: self.poll,
            configuration: self.configuration.clone(),
            stream_options: self.stream_options.clone(),
        }
    }
}

/// Where a run resumes after an in-run compaction.
#[derive(Debug, PartialEq, Eq)]
pub struct CheckpointData {
    pub continuation: Continuation,
    pub trigger_entry_id: String,
}

/// Contents of a [`CheckpointData`].
pub struct CheckpointDataView {
    pub continuation: Continuation,
    pub trigger_entry_id: Seq<char>,
}

impl DeepView for CheckpointData {
    type V = CheckpointDataView;

    open spec fn deep_view(&self) -> CheckpointDataView {
        CheckpointDataView {
            continuation: self.continuation.deep_view(),
            trigger_entry_id: self.trigger_entry_id.deep_view(),
        }
    }
}

impl Clone for CheckpointData {
    fn clone(&self) -> (r: Self)
        ensures
            r.deep_view() == self.deep_view(),
    {
        CheckpointData {
            continuation: self.continuation,
            trigger_entry_id: self.trigger_entry_id.clone(),
        }
    }
}

/// What follows a structural task.
#[derive(Debug, PartialEq, Eq)]
pub enum ResultBoundary {
    Finish,
    CommitNavigation {
        target_id: String,
        label: Option<String>,
    },
    ResumeCheckpoint {
        resume_after: CheckpointData,
    },
}

/// Contents of [`ResultBoundary`].
pub enum ResultBoundaryView {
    Finish,
    CommitNavigation {
        target_id: Seq<char>,
        label: Option<Seq<char>>,
    },
    ResumeCheckpoint {
        resume_after: CheckpointDataView,
    },
}

impl DeepView for ResultBoundary {
    type V = ResultBoundaryView;

    open spec fn deep_view(&self) -> ResultBoundaryView {
        match self {
            ResultBoundary::Finish => ResultBoundaryView::Finish,
            ResultBoundary::CommitNavigation {
                target_id,
                label,
            } => ResultBoundaryView::CommitNavigation {
                target_id: target_id.deep_view(),
                label: label.deep_view(),
            },
            ResultBoundary::ResumeCheckpoint {
                resume_after,
            } => ResultBoundaryView::ResumeCheckpoint {
                resume_after: resume_after.deep_view(),
            },
        }
    }
}

impl Clone for ResultBoundary {
    fn clone(&self) -> (r: Self)
        ensures
            r.deep_view() == self.deep_view(),
    {
        match self {
            ResultBoundary::Finish => ResultBoundary::Finish,
            ResultBoundary::CommitNavigation {
                target_id,
                label,
            } => ResultBoundary::CommitNavigation {
                target_id: target_id.clone(),
                label: label.clone(),
            },
            ResultBoundary::ResumeCheckpoint { resume_after } => ResultBoundary::ResumeCheckpoint {
                resume_after: resume_after.clone(),
            },
        }
    }
}

/// A structural task: a compaction or a branch summary.
#[derive(Debug, PartialEq, Eq)]
pub struct SummaryTask {
    pub task_id: String,
    pub reason: Option<String>,
    pub custom_instructions: Option<String>,
    pub boundary: ResultBoundary,
}

/// Contents of a [`SummaryTask`].
pub struct SummaryTaskView {
    pub task_id: Seq<char>,
    pub reason: Option<Seq<char>>,
    pub custom_instructions: Option<Seq<char>>,
    pub boundary: ResultBoundaryView,
}

impl DeepView for SummaryTask {
    type V = SummaryTaskView;

    open spec fn deep_view(&self) -> SummaryTaskView {
        SummaryTaskView {
            task_id: self.task_id.deep_view(),
            reason: self.reason.deep_view(),
            custom_instructions: self.custom_instructions.deep_view(),
            boundary: self.boundary.deep_view(),
        }
    }
}

impl Clone for SummaryTask {
    fn clone(&self) -> (r: Self)
        ensures
            r.deep_view() == self.deep_view(),
    {
        SummaryTask {
            task_id: self.task_id.clone(),
            reason: self.reason.clone(),
            custom_instructions: self.custom_instructions.clone(),
            boundary: self.boundary.clone(),
        }
    }
}

/// What a structural task generates with.
#[derive(Debug, PartialEq, Eq)]
pub struct SummaryContext {
    pub result_entry_id: String,
    pub configuration: LaneConfiguration,
    pub stream_options: StreamOptions,
    pub retry_policy: NormalizedRetryPolicy,
}

/// Contents of a [`SummaryContext`].
pub struct SummaryContextView {
    pub result_entry_id: Seq<char>,
    pub configuration: LaneConfigurationView,
    pub stream_options: StreamOptionsView,
    pub retry_policy: NormalizedRetryPolicy,
}

impl DeepView for SummaryContext {
    type V = SummaryContextView;

    open spec fn deep_view(&self) -> SummaryContextView {
        SummaryContextView {
            result_entry_id: self.result_entry_id.deep_view(),
            configuration: self.configuration.deep_view(),
            stream_options: self.stream_options.deep_view(),
            retry_policy: self.retry_policy.deep_view(),
        }
    }
}

impl Clone for SummaryContext {
    fn clone(&self) -> (r: Self)
        ensures
            r.deep_view() == self.deep_view(),
    {
        SummaryContext {
            result_entry_id: self.result_entry_id.clone(),
            configuration: self.configuration.clone(),
            stream_options: self.stream_options.clone(),
            retry_policy: self.retry_policy,
        }
    }
}

/// Durable progress of one tool call.
#[derive(Debug, PartialEq, Eq)]
pub enum ToolCall {
    Planned {
        source_index: usize,
        result_entry_id: String,
    },
    EffectPending {
        source_index: usize,
        result_entry_id: String,
        replay: ReplayPolicy,
    },
    OutcomeReady {
        source_index: usize,
        result_entry_id: String,
        terminate: bool,
    },
    Completed {
        source_index: usize,
        result_entry_id: String,
        terminate: bool,
    },
}

/// Contents of [`ToolCall`].
pub enum ToolCallView {
    Planned {
        source_index: usize,
        result_entry_id: Seq<char>,
    },
    EffectPending {
        source_index: usize,
        result_entry_id: Seq<char>,
        replay: ReplayPolicy,
    },
    OutcomeReady {
        source_index: usize,
        result_entry_id: Seq<char>,
        terminate: bool,
    },
    Completed {
        source_index: usize,
        result_entry_id: Seq<char>,
        terminate: bool,
    },
}

impl DeepView for ToolCall {
    type V = ToolCallView;

    open spec fn deep_view(&self) -> ToolCallView {
        match self {
            ToolCall::Planned { source_index, result_entry_id } => ToolCallView::Planned {
                source_index: source_index.deep_view(),
                result_entry_id: result_entry_id.deep_view(),
            },
            ToolCall::EffectPending {
                source_index,
                result_entry_id,
                replay,
            } => ToolCallView::EffectPending {
                source_index: source_index.deep_view(),
                result_entry_id: result_entry_id.deep_view(),
                replay: replay.deep_view(),
            },
            ToolCall::OutcomeReady {
                source_index,
                result_entry_id,
                terminate,
            } => ToolCallView::OutcomeReady {
                source_index: source_index.deep_view(),
                result_entry_id: result_entry_id.deep_view(),
                terminate: terminate.deep_view(),
            },
            ToolCall::Completed {
                source_index,
                result_entry_id,
                terminate,
            } => ToolCallView::Completed {
                source_index: source_index.deep_view(),
                result_entry_id: result_entry_id.deep_view(),
                terminate: terminate.deep_view(),
            },
        }
    }
}

impl Clone for ToolCall {
    fn clone(&self) -> (r: Self)
        ensures
            r.deep_view() == self.deep_view(),
    {
        match self {
            ToolCall::Planned { source_index, result_entry_id } => ToolCall::Planned {
                source_index: *source_index,
                result_entry_id: result_entry_id.clone(),
            },
            ToolCall::EffectPending {
                source_index,
                result_entry_id,
                replay,
            } => ToolCall::EffectPending {
                source_index: *source_index,
                result_entry_id: result_entry_id.clone(),
                replay: *replay,
            },
            ToolCall::OutcomeReady {
                source_index,
                result_entry_id,
                terminate,
            } => ToolCall::OutcomeReady {
                source_index: *source_index,
                result_entry_id: result_entry_id.clone(),
                terminate: *terminate,
            },
            ToolCall::Completed {
                source_index,
                result_entry_id,
                terminate,
            } => ToolCall::Completed {
                source_index: *source_index,
                result_entry_id: result_entry_id.clone(),
                terminate: *terminate,
            },
        }
    }
}

/// The tool calls of one assistant message.
#[derive(Debug, PartialEq, Eq)]
pub struct ToolBatch {
    pub assistant_entry_id: String,
    pub configuration: LaneConfiguration,
    pub turn_id: String,
    pub calls: Vec<ToolCall>,
}

/// Contents of a [`ToolBatch`].
pub struct ToolBatchView {
    pub assistant_entry_id: Seq<char>,
    pub configuration: LaneConfigurationView,
    pub turn_id: Seq<char>,
    pub calls: Seq<ToolCallView>,
}

impl DeepView for ToolBatch {
    type V = ToolBatchView;

    open spec fn deep_view(&self) -> ToolBatchView {
        ToolBatchView {
            assistant_entry_id: self.assistant_entry_id.deep_view(),
            configuration: self.configuration.deep_view(),
            turn_id: self.turn_id.deep_view(),
            calls: self.calls.deep_view(),
        }
    }
}

impl Clone for ToolBatch {
    fn clone(&self) -> (r: Self)
        ensures
            r.deep_view() == self.deep_view(),
    {
        ToolBatch {
            assistant_entry_id: self.assistant_entry_id.clone(),
            configuration: self.configuration.clone(),
            turn_id: self.turn_id.clone(),
            calls: self.calls.clone(),
        }
    }
}

/// The durable leaf an operation rests in.
#[allow(inconsistent_fields)]
#[derive(Debug, PartialEq, Eq)]
pub enum OperationState {
    Starting {
        scope: OperationScope,
    },
    Checkpoint {
        scope: OperationScope,
        continuation: Continuation,
        trigger_entry_id: String,
    },
    AssistantReady {
        scope: OperationScope,
        generation_context: GenerationContext,
        next_attempt: u32,
    },
    AssistantEffectPending {
        scope: OperationScope,
        generation_context: GenerationContext,
        attempt: u32,
        response_entry_id: String,
        usage_id: String,
        intended_output_limit: u64,
        context_window: u64,
    },
    AssistantRetryWait {
        scope: OperationScope,
        generation_context: GenerationContext,
        next_attempt: u32,
        not_before: u64,
        error_message: String,
    },
    Tools {
        scope: OperationScope,
        batch: ToolBatch,
    },
    DeferredSuspended {
        scope: DeferredScope,
    },
    DeferredEffectPending {
        scope: DeferredScope,
        response_entry_id: String,
        usage_id: String,
    },
    SummaryDeciding {
        scope: OperationScope,
        task: SummaryTask,
    },
    SummaryReady {
        scope: OperationScope,
        task: SummaryTask,
        summary_context: SummaryContext,
        next_attempt: u32,
    },
    SummaryEffectPending {
        scope: OperationScope,
        task: SummaryTask,
        summary_context: SummaryContext,
        attempt: u32,
        request: Option<Json>,
        usage_ids: Vec<String>,
    },
    SummaryRetryWait {
        scope: OperationScope,
        task: SummaryTask,
        summary_context: SummaryContext,
        next_attempt: u32,
        not_before: u64,
        error_message: String,
    },
    NavigationReadyToCommit {
        scope: OperationScope,
        target_id: Option<String>,
        label: Option<String>,
    },
}

/// Contents of [`OperationState`].
#[allow(inconsistent_fields)]
pub enum OperationStateView {
    Starting {
        scope: OperationScopeView,
    },
    Checkpoint {
        scope: OperationScopeView,
        continuation: Continuation,
        trigger_entry_id: Seq<char>,
    },
    AssistantReady {
        scope: OperationScopeView,
        generation_context: GenerationContextView,
        next_attempt: u32,
    },
    AssistantEffectPending {
        scope: OperationScopeView,
        generation_context: GenerationContextView,
        attempt: u32,
        response_entry_id: Seq<char>,
        usage_id: Seq<char>,
        intended_output_limit: u64,
        context_window: u64,
    },
    AssistantRetryWait {
        scope: OperationScopeView,
        generation_context: GenerationContextView,
        next_attempt: u32,
        not_before: u64,
        error_message: Seq<char>,
    },
    Tools {
        scope: OperationScopeView,
        batch: ToolBatchView,
    },
    DeferredSuspended {
        scope: DeferredScopeView,
    },
    DeferredEffectPending {
        scope: DeferredScopeView,
        response_entry_id: Seq<char>,
        usage_id: Seq<char>,
    },
    SummaryDeciding {
        scope: OperationScopeView,
        task: SummaryTaskView,
    },
    SummaryReady {
        scope: OperationScopeView,
        task: SummaryTaskView,
        summary_context: SummaryContextView,
        next_attempt: u32,
    },
    SummaryEffectPending {
        scope: OperationScopeView,
        task: SummaryTaskView,
        summary_context: SummaryContextView,
        attempt: u32,
        request: Option<serde_json::Value>,
        usage_ids: Seq<Seq<char>>,
    },
    SummaryRetryWait {
        scope: OperationScopeView,
        task: SummaryTaskView,
        summary_context: SummaryContextView,
        next_attempt: u32,
        not_before: u64,
        error_message: Seq<char>,
    },
    NavigationReadyToCommit {
        scope: OperationScopeView,
        target_id: Option<Seq<char>>,
        label: Option<Seq<char>>,
    },
}

impl DeepView for OperationState {
    type V = OperationStateView;

    open spec fn deep_view(&self) -> OperationStateView {
        match self {
            OperationState::Starting { scope } => OperationStateView::Starting {
                scope: scope.deep_view(),
            },
            OperationState::Checkpoint {
                scope,
                continuation,
                trigger_entry_id,
            } => OperationStateView::Checkpoint {
                scope: scope.deep_view(),
                continuation: continuation.deep_view(),
                trigger_entry_id: trigger_entry_id.deep_view(),
            },
            OperationState::AssistantReady {
                scope,
                generation_context,
                next_attempt,
            } => OperationStateView::AssistantReady {
                scope: scope.deep_view(),
                generation_context: generation_context.deep_view(),
                next_attempt: next_attempt.deep_view(),
            },
            OperationState::AssistantEffectPending {
                scope,
                generation_context,
                attempt,
                response_entry_id,
                usage_id,
                intended_output_limit,
                context_window,
            } => OperationStateView::AssistantEffectPending {
                scope: scope.deep_view(),
                generation_context: generation_context.deep_view(),
                attempt: attempt.deep_view(),
                response_entry_id: response_entry_id.deep_view(),
                usage_id: usage_id.deep_view(),
                intended_output_limit: intended_output_limit.deep_view(),
                context_window: context_window.deep_view(),
            },
            OperationState::AssistantRetryWait {
                scope,
                generation_context,
                next_attempt,
                not_before,
                error_message,
            } => OperationStateView::AssistantRetryWait {
                scope: scope.deep_view(),
                generation_context: generation_context.deep_view(),
                next_attempt: next_attempt.deep_view(),
                not_before: not_before.deep_view(),
                error_message: error_message.deep_view(),
            },
            OperationState::Tools { scope, batch } => OperationStateView::Tools {
                scope: scope.deep_view(),
                batch: batch.deep_view(),
            },
            OperationState::DeferredSuspended { scope } => OperationStateView::DeferredSuspended {
                scope: scope.deep_view(),
            },
            OperationState::DeferredEffectPending {
                scope,
                response_entry_id,
                usage_id,
            } => OperationStateView::DeferredEffectPending {
                scope: scope.deep_view(),
                response_entry_id: response_entry_id.deep_view(),
                usage_id: usage_id.deep_view(),
            },
            OperationState::SummaryDeciding { scope, task } => OperationStateView::SummaryDeciding {
                scope: scope.deep_view(),
                task: task.deep_view(),
            },
            OperationState::SummaryReady {
                scope,
                task,
                summary_context,
                next_attempt,
            } => OperationStateView::SummaryReady {
                scope: scope.deep_view(),
                task: task.deep_view(),
                summary_context: summary_context.deep_view(),
                next_attempt: next_attempt.deep_view(),
            },
            OperationState::SummaryEffectPending {
                scope,
                task,
                summary_context,
                attempt,
                request,
                usage_ids,
            } => OperationStateView::SummaryEffectPending {
                scope: scope.deep_view(),
                task: task.deep_view(),
                summary_context: summary_context.deep_view(),
                attempt: attempt.deep_view(),
                request: request.deep_view(),
                usage_ids: usage_ids.deep_view(),
            },
            OperationState::SummaryRetryWait {
                scope,
                task,
                summary_context,
                next_attempt,
                not_before,
                error_message,
            } => OperationStateView::SummaryRetryWait {
                scope: scope.deep_view(),
                task: task.deep_view(),
                summary_context: summary_context.deep_view(),
                next_attempt: next_attempt.deep_view(),
                not_before: not_before.deep_view(),
                error_message: error_message.deep_view(),
            },
            OperationState::NavigationReadyToCommit {
                scope,
                target_id,
                label,
            } => OperationStateView::NavigationReadyToCommit {
                scope: scope.deep_view(),
                target_id: target_id.deep_view(),
                label: label.deep_view(),
            },
        }
    }
}

impl Clone for OperationState {
    fn clone(&self) -> (r: Self)
        ensures
            r.deep_view() == self.deep_view(),
    {
        match self {
            OperationState::Starting { scope } => OperationState::Starting {
                scope: scope.clone(),
            },
            OperationState::Checkpoint {
                scope,
                continuation,
                trigger_entry_id,
            } => OperationState::Checkpoint {
                scope: scope.clone(),
                continuation: *continuation,
                trigger_entry_id: trigger_entry_id.clone(),
            },
            OperationState::AssistantReady {
                scope,
                generation_context,
                next_attempt,
            } => OperationState::AssistantReady {
                scope: scope.clone(),
                generation_context: generation_context.clone(),
                next_attempt: *next_attempt,
            },
            OperationState::AssistantEffectPending {
                scope,
                generation_context,
                attempt,
                response_entry_id,
                usage_id,
                intended_output_limit,
                context_window,
            } => OperationState::AssistantEffectPending {
                scope: scope.clone(),
                generation_context: generation_context.clone(),
                attempt: *attempt,
                response_entry_id: response_entry_id.clone(),
                usage_id: usage_id.clone(),
                intended_output_limit: *intended_output_limit,
                context_window: *context_window,
            },
            OperationState::AssistantRetryWait {
                scope,
                generation_context,
                next_attempt,
                not_before,
                error_message,
            } => OperationState::AssistantRetryWait {
                scope: scope.clone(),
                generation_context: generation_context.clone(),
                next_attempt: *next_attempt,
                not_before: *not_before,
                error_message: error_message.clone(),
            },
            OperationState::Tools { scope, batch } => OperationState::Tools {
                scope: scope.clone(),
                batch: batch.clone(),
            },
            OperationState::DeferredSuspended { scope } => OperationState::DeferredSuspended {
                scope: scope.clone(),
            },
            OperationState::DeferredEffectPending {
                scope,
                response_entry_id,
                usage_id,
            } => OperationState::DeferredEffectPending {
                scope: scope.clone(),
                response_entry_id: response_entry_id.clone(),
                usage_id: usage_id.clone(),
            },
            OperationState::SummaryDeciding { scope, task } => OperationState::SummaryDeciding {
                scope: scope.clone(),
                task: task.clone(),
            },
            OperationState::SummaryReady {
                scope,
                task,
                summary_context,
                next_attempt,
            } => OperationState::SummaryReady {
                scope: scope.clone(),
                task: task.clone(),
                summary_context: summary_context.clone(),
                next_attempt: *next_attempt,
            },
            OperationState::SummaryEffectPending {
                scope,
                task,
                summary_context,
                attempt,
                request,
                usage_ids,
            } => OperationState::SummaryEffectPending {
                scope: scope.clone(),
                task: task.clone(),
                summary_context: summary_context.clone(),
                attempt: *attempt,
                request: request.clone(),
                usage_ids: usage_ids.clone(),
            },
            OperationState::SummaryRetryWait {
                scope,
                task,
                summary_context,
                next_attempt,
                not_before,
                error_message,
            } => OperationState::SummaryRetryWait {
                scope: scope.clone(),
                task: task.clone(),
                summary_context: summary_context.clone(),
                next_attempt: *next_attempt,
                not_before: *not_before,
                error_message: error_message.clone(),
            },
            OperationState::NavigationReadyToCommit {
                scope,
                target_id,
                label,
            } => OperationState::NavigationReadyToCommit {
                scope: scope.clone(),
                target_id: target_id.clone(),
                label: label.clone(),
            },
        }
    }
}

/// What an operation was accepted for.
#[derive(Debug, PartialEq, Eq)]
pub enum OperationIntent {
    Run {
        prompt_entry_ids: Vec<String>,
    },
    Compaction {
        custom_instructions: Option<String>,
    },
    Navigation {
        target_id: Option<String>,
        summarize: bool,
        label: Option<String>,
        custom_instructions: Option<String>,
    },
}

/// Contents of [`OperationIntent`].
pub enum OperationIntentView {
    Run {
        prompt_entry_ids: Seq<Seq<char>>,
    },
    Compaction {
        custom_instructions: Option<Seq<char>>,
    },
    Navigation {
        target_id: Option<Seq<char>>,
        summarize: bool,
        label: Option<Seq<char>>,
        custom_instructions: Option<Seq<char>>,
    },
}

impl DeepView for OperationIntent {
    type V = OperationIntentView;

    open spec fn deep_view(&self) -> OperationIntentView {
        match self {
            OperationIntent::Run { prompt_entry_ids } => OperationIntentView::Run {
                prompt_entry_ids: prompt_entry_ids.deep_view(),
            },
            OperationIntent::Compaction { custom_instructions } => OperationIntentView::Compaction {
                custom_instructions: custom_instructions.deep_view(),
            },
            OperationIntent::Navigation {
                target_id,
                summarize,
                label,
                custom_instructions,
            } => OperationIntentView::Navigation {
                target_id: target_id.deep_view(),
                summarize: summarize.deep_view(),
                label: label.deep_view(),
                custom_instructions: custom_instructions.deep_view(),
            },
        }
    }
}

impl Clone for OperationIntent {
    fn clone(&self) -> (r: Self)
        ensures
            r.deep_view() == self.deep_view(),
    {
        match self {
            OperationIntent::Run { prompt_entry_ids } => OperationIntent::Run {
                prompt_entry_ids: prompt_entry_ids.clone(),
            },
            OperationIntent::Compaction { custom_instructions } => OperationIntent::Compaction {
                custom_instructions: custom_instructions.clone(),
            },
            OperationIntent::Navigation {
                target_id,
                summarize,
                label,
                custom_instructions,
            } => OperationIntent::Navigation {
                target_id: target_id.clone(),
                summarize: *summarize,
                label: label.clone(),
                custom_instructions: custom_instructions.clone(),
            },
        }
    }
}

/// Identity of an operation.
#[derive(Debug, PartialEq, Eq)]
pub struct OperationMeta {
    pub operation_id: String,
    pub lane: String,
    pub intent: OperationIntent,
    pub source_tip_id: Option<String>,
    pub started_at: u64,
}

/// Contents of an [`OperationMeta`].
pub struct OperationMetaView {
    pub operation_id: Seq<char>,
    pub lane: Seq<char>,
    pub intent: OperationIntentView,
    pub source_tip_id: Option<Seq<char>>,
    pub started_at: u64,
}

impl DeepView for OperationMeta {
    type V = OperationMetaView;

    open spec fn deep_view(&self) -> OperationMetaView {
        OperationMetaView {
            operation_id: self.operation_id.deep_view(),
            lane: self.lane.deep_view(),
            intent: self.intent.deep_view(),
            source_tip_id: self.source_tip_id.deep_view(),
            started_at: self.started_at.deep_view(),
        }
    }
}

impl Clone for OperationMeta {
    fn clone(&self) -> (r: Self)
        ensures
            r.deep_view() == self.deep_view(),
    {
        OperationMeta {
            operation_id: self.operation_id.clone(),
            lane: self.lane.clone(),
            intent: self.intent.clone(),
            source_tip_id: self.source_tip_id.clone(),
            started_at: self.started_at,
        }
    }
}

/// An operation and the leaf it rests in.
#[derive(Debug, PartialEq, Eq)]
pub struct Operation {
    pub meta: OperationMeta,
    pub state: OperationState,
}

/// Contents of an [`Operation`].
pub struct OperationView {
    pub meta: OperationMetaView,
    pub state: OperationStateView,
}

impl DeepView for Operation {
    type V = OperationView;

    open spec fn deep_view(&self) -> OperationView {
        OperationView {
            meta: self.meta.deep_view(),
            state: self.state.deep_view(),
        }
    }
}

impl Clone for Operation {
    fn clone(&self) -> (r: Self)
        ensures
            r.deep_view() == self.deep_view(),
    {
        Operation {
            meta: self.meta.clone(),
            state: self.state.clone(),
        }
    }
}

/// Details of an operation error.
#[allow(inconsistent_fields)]
#[derive(Debug, PartialEq, Eq)]
pub enum ErrorDetails {
    Model(ModelIdentity),
    MissingTools(Vec<String>),
    Other(Json),
}

/// Contents of [`ErrorDetails`].
#[allow(inconsistent_fields)]
pub enum ErrorDetailsView {
    Model(ModelIdentityView),
    MissingTools(Seq<Seq<char>>),
    Other(serde_json::Value),
}

impl DeepView for ErrorDetails {
    type V = ErrorDetailsView;

    open spec fn deep_view(&self) -> ErrorDetailsView {
        match self {
            ErrorDetails::Model(item) => ErrorDetailsView::Model(item.deep_view()),
            ErrorDetails::MissingTools(item) => ErrorDetailsView::MissingTools(item.deep_view()),
            ErrorDetails::Other(item) => ErrorDetailsView::Other(item.deep_view()),
        }
    }
}

impl Clone for ErrorDetails {
    fn clone(&self) -> (r: Self)
        ensures
            r.deep_view() == self.deep_view(),
    {
        match self {
            ErrorDetails::Model(item) => ErrorDetails::Model(item.clone()),
            ErrorDetails::MissingTools(item) => ErrorDetails::MissingTools(item.clone()),
            ErrorDetails::Other(item) => ErrorDetails::Other(item.clone()),
        }
    }
}

/// Why an operation failed.
#[derive(Debug, PartialEq, Eq)]
pub struct OperationError {
    pub code: String,
    pub message: String,
    pub details: Option<ErrorDetails>,
}

/// Contents of an [`OperationError`].
pub struct OperationErrorView {
    pub code: Seq<char>,
    pub message: Seq<char>,
    pub details: Option<ErrorDetailsView>,
}

impl DeepView for OperationError {
    type V = OperationErrorView;

    open spec fn deep_view(&self) -> OperationErrorView {
        OperationErrorView {
            code: self.code.deep_view(),
            message: self.message.deep_view(),
            details: self.details.deep_view(),
        }
    }
}

impl Clone for OperationError {
    fn clone(&self) -> (r: Self)
        ensures
            r.deep_view() == self.deep_view(),
    {
        OperationError {
            code: self.code.clone(),
            message: self.message.clone(),
            details: self.details.clone(),
        }
    }
}

/// Durable result of an operation.
#[derive(Debug, PartialEq, Eq)]
pub struct OperationResultRecord {
    pub operation_id: String,
    pub kind: OperationIntent,
    pub status: TerminalStatus,
    pub error: Option<OperationError>,
    pub from_tip_id: Option<String>,
    pub tip_id: Option<String>,
    pub started_at: u64,
    pub ended_at: u64,
}

/// Contents of an [`OperationResultRecord`].
pub struct OperationResultRecordView {
    pub operation_id: Seq<char>,
    pub kind: OperationIntentView,
    pub status: TerminalStatus,
    pub error: Option<OperationErrorView>,
    pub from_tip_id: Option<Seq<char>>,
    pub tip_id: Option<Seq<char>>,
    pub started_at: u64,
    pub ended_at: u64,
}

impl DeepView for OperationResultRecord {
    type V = OperationResultRecordView;

    open spec fn deep_view(&self) -> OperationResultRecordView {
        OperationResultRecordView {
            operation_id: self.operation_id.deep_view(),
            kind: self.kind.deep_view(),
            status: self.status.deep_view(),
            error: self.error.deep_view(),
            from_tip_id: self.from_tip_id.deep_view(),
            tip_id: self.tip_id.deep_view(),
            started_at: self.started_at.deep_view(),
            ended_at: self.ended_at.deep_view(),
        }
    }
}

impl Clone for OperationResultRecord {
    fn clone(&self) -> (r: Self)
        ensures
            r.deep_view() == self.deep_view(),
    {
        OperationResultRecord {
            operation_id: self.operation_id.clone(),
            kind: self.kind.clone(),
            status: self.status,
            error: self.error.clone(),
            from_tip_id: self.from_tip_id.clone(),
            tip_id: self.tip_id.clone(),
            started_at: self.started_at,
            ended_at: self.ended_at,
        }
    }
}

/// A queued entry of a lane.
#[derive(Debug, PartialEq, Eq)]
pub struct InboxItem {
    pub entry_id: String,
    pub kind: InboxItemKind,
}

/// Contents of an [`InboxItem`].
pub struct InboxItemView {
    pub entry_id: Seq<char>,
    pub kind: InboxItemKind,
}

impl DeepView for InboxItem {
    type V = InboxItemView;

    open spec fn deep_view(&self) -> InboxItemView {
        InboxItemView {
            entry_id: self.entry_id.deep_view(),
            kind: self.kind.deep_view(),
        }
    }
}

impl Clone for InboxItem {
    fn clone(&self) -> (r: Self)
        ensures
            r.deep_view() == self.deep_view(),
    {
        InboxItem {
            entry_id: self.entry_id.clone(),
            kind: self.kind,
        }
    }
}

/// Payload of a queued entry.
#[allow(inconsistent_fields)]
#[derive(Debug, PartialEq, Eq)]
pub enum PendingEntry {
    Message {
        payload: AgentMessage,
    },
    Custom {
        custom_type: String,
        payload: Option<Json>,
    },
}

/// Contents of [`PendingEntry`].
#[allow(inconsistent_fields)]
pub enum PendingEntryView {
    Message {
        payload: AgentMessageView,
    },
    Custom {
        custom_type: Seq<char>,
        payload: Option<serde_json::Value>,
    },
}

impl DeepView for PendingEntry {
    type V = PendingEntryView;

    open spec fn deep_view(&self) -> PendingEntryView {
        match self {
            PendingEntry::Message { payload } => PendingEntryView::Message {
                payload: payload.deep_view(),
            },
            PendingEntry::Custom { custom_type, payload } => PendingEntryView::Custom {
                custom_type: custom_type.deep_view(),
                payload: payload.deep_view(),
            },
        }
    }
}

impl Clone for PendingEntry {
    fn clone(&self) -> (r: Self)
        ensures
            r.deep_view() == self.deep_view(),
    {
        match self {
            PendingEntry::Message { payload } => PendingEntry::Message {
                payload: payload.clone(),
            },
            PendingEntry::Custom { custom_type, payload } => PendingEntry::Custom {
                custom_type: custom_type.clone(),
                payload: payload.clone(),
            },
        }
    }
}

/// Durable part of a lane besides its tip and configuration.
#[derive(Debug, PartialEq, Eq)]
pub struct DurableLaneState {
    pub current_operation_id: Option<String>,
    pub last_operation_id: Option<String>,
    pub inbox: Vec<InboxItem>,
}

/// Contents of a [`DurableLaneState`].
pub struct DurableLaneStateView {
    pub current_operation_id: Option<Seq<char>>,
    pub last_operation_id: Option<Seq<char>>,
    pub inbox: Seq<InboxItemView>,
}

impl DeepView for DurableLaneState {
    type V = DurableLaneStateView;

    open spec fn deep_view(&self) -> DurableLaneStateView {
        DurableLaneStateView {
            current_operation_id: self.current_operation_id.deep_view(),
            last_operation_id: self.last_operation_id.deep_view(),
            inbox: self.inbox.deep_view(),
        }
    }
}

impl Clone for DurableLaneState {
    fn clone(&self) -> (r: Self)
        ensures
            r.deep_view() == self.deep_view(),
    {
        DurableLaneState {
            current_operation_id: self.current_operation_id.clone(),
            last_operation_id: self.last_operation_id.clone(),
            inbox: self.inbox.clone(),
        }
    }
}

/// Files touched by a transcript, as lists.
#[derive(Debug, PartialEq, Eq)]
pub struct DurableFileOperations {
    pub read: Vec<String>,
    pub written: Vec<String>,
    pub edited: Vec<String>,
}

/// Contents of a [`DurableFileOperations`].
pub struct DurableFileOperationsView {
    pub read: Seq<Seq<char>>,
    pub written: Seq<Seq<char>>,
    pub edited: Seq<Seq<char>>,
}

impl DeepView for DurableFileOperations {
    type V = DurableFileOperationsView;

    open spec fn deep_view(&self) -> DurableFileOperationsView {
        DurableFileOperationsView {
            read: self.read.deep_view(),
            written: self.written.deep_view(),
            edited: self.edited.deep_view(),
        }
    }
}

impl Clone for DurableFileOperations {
    fn clone(&self) -> (r: Self)
        ensures
            r.deep_view() == self.deep_view(),
    {
        DurableFileOperations {
            read: self.read.clone(),
            written: self.written.clone(),
            edited: self.edited.clone(),
        }
    }
}

/// Durable input of a structural task.
#[derive(Debug, PartialEq, Eq)]
pub enum DurableStructuralPreparation {
    Compaction {
        messages_to_summarize: Vec<AgentMessage>,
        turn_prefix_messages: Vec<AgentMessage>,
        retained_tail: Vec<AgentMessage>,
        is_split_turn: bool,
        tokens_before: u64,
        previous_summary: Option<String>,
        file_ops: DurableFileOperations,
        settings: CompactionSettings,
    },
    BranchSummary {
        messages: Vec<AgentMessage>,
        file_ops: DurableFileOperations,
        total_tokens: u64,
    },
}

/// Contents of [`DurableStructuralPreparation`].
pub enum DurableStructuralPreparationView {
    Compaction {
        messages_to_summarize: Seq<AgentMessageView>,
        turn_prefix_messages: Seq<AgentMessageView>,
        retained_tail: Seq<AgentMessageView>,
        is_split_turn: bool,
        tokens_before: u64,
        previous_summary: Option<Seq<char>>,
        file_ops: DurableFileOperationsView,
        settings: CompactionSettings,
    },
    BranchSummary {
        messages: Seq<AgentMessageView>,
        file_ops: DurableFileOperationsView,
        total_tokens: u64,
    },
}

impl DeepView for DurableStructuralPreparation {
    type V = DurableStructuralPreparationView;

    open spec fn deep_view(&self) -> DurableStructuralPreparationView {
        match self {
            DurableStructuralPreparation::Compaction {
                messages_to_summarize,
                turn_prefix_messages,
                retained_tail,
                is_split_turn,
                tokens_before,
                previous_summary,
                file_ops,
                settings,
            } => DurableStructuralPreparationView::Compaction {
                messages_to_summarize: messages_to_summarize.deep_view(),
                turn_prefix_messages: turn_prefix_messages.deep_view(),
                retained_tail: retained_tail.deep_view(),
                is_split_turn: is_split_turn.deep_view(),
                tokens_before: tokens_before.deep_view(),
                previous_summary: previous_summary.deep_view(),
                file_ops: file_ops.deep_view(),
                settings: settings.deep_view(),
            },
            DurableStructuralPreparation::BranchSummary {
                messages,
                file_ops,
                total_tokens,
            } => DurableStructuralPreparationView::BranchSummary {
                messages: messages.deep_view(),
                file_ops: file_ops.deep_view(),
                total_tokens: total_tokens.deep_view(),
            },
        }
    }
}

impl Clone for DurableStructuralPreparation {
    fn clone(&self) -> (r: Self)
        ensures
            r.deep_view() == self.deep_view(),
    {
        match self {
            DurableStructuralPreparation::Compaction {
                messages_to_summarize,
                turn_prefix_messages,
                retained_tail,
                is_split_turn,
                tokens_before,
                previous_summary,
                file_ops,
                settings,
            } => DurableStructuralPreparation::Compaction {
                messages_to_summarize: messages_to_summarize.clone(),
                turn_prefix_messages: turn_prefix_messages.clone(),
                retained_tail: retained_tail.clone(),
                is_split_turn: *is_split_turn,
                tokens_before: *tokens_before,
                previous_summary: previous_summary.clone(),
                file_ops: file_ops.clone(),
                settings: *settings,
            },
            DurableStructuralPreparation::BranchSummary {
                messages,
                file_ops,
                total_tokens,
            } => DurableStructuralPreparation::BranchSummary {
                messages: messages.clone(),
                file_ops: file_ops.clone(),
                total_tokens: *total_tokens,
            },
        }
    }
}

} // verus!
