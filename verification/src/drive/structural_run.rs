//! Running a structural task: a compaction or the summary of a branch.

use crate::command::{LaneCommandView, OperationCommand, OperationCommandView};
use crate::drive::boundary::{countable, normalized, normalized_retry_policy, tip_write, write_tip};
use crate::drive::generation::lemma_bare_move_keeps_step;
use crate::drive::retry::{resume_time, retry_not_before};
use crate::drive::structural::{
    branch_of, branch_preparation, compaction_of, compaction_preparation, label_write,
    navigation_end, write_label, BranchPreparation, BranchPreparationView, CompactionPreparation,
    CompactionPreparationView,
};
use crate::drive::terminal::{
    cleanup, is_scratch, lemma_cleanup_spares, operation_cleanup_writes, operation_result_record,
    result_record,
};
use crate::durable::{
    committed, in_step, lemma_committed_concat, lemma_committed_push, lemma_spared, spares,
};
use crate::json::{flag, flag_of, flag_value, from_flag, member, member_of, Json};
use crate::lane::settle::{keeps_step, law_settling_keeps_step, safe_decision, settled};
use crate::model::event::{HarnessEvent, HarnessEventView, PlannedEvent, PlannedEventView};
use crate::model::message::{AgentMessage, AgentMessageView, Usage, UsageView};
use crate::model::session::{
    DurableStructuralPreparation, DurableStructuralPreparationView, ErrorDetails, ErrorDetailsView,
    LaneConfiguration, LaneConfigurationView, ModelIdentity, OperationError, OperationErrorView,
    OperationMeta, OperationMetaView, OperationState, OperationStateView, ResultBoundary,
    ResultBoundaryView, StreamOptions, StreamOptionsView, SummaryContext, SummaryContextView,
    SummaryTask, SummaryTaskView, TerminalStatus,
};
use crate::model::storage::{
    Address, AddressView, DurableValueView, NewBranchSummaryEntry, NewBranchSummaryEntryView,
    NewCompactionEntry, NewCompactionEntryView, NewEntry, NewEntryView, SummaryDetails,
    SummaryDetailsView, UsageRow, UsageRowView, Write, WriteView,
};
use crate::state::state_task;
use crate::text::join;
use crate::transcript::append_all;
use crate::types::{
    Config, ConfigView, LanePatch, LanePatchView, LaneRuntimeState, LaneRuntimeStateView,
    ProcedureResult, ProcedureResultView,
};
use vstd::prelude::*;

verus! {

/// The kind of a structural task.
pub open spec fn kind_of(task: SummaryTaskView) -> Seq<char> {
    if task.boundary is CommitNavigation {
        "branch_summary"@
    } else {
        "compaction"@
    }
}

/// Names the kind of a structural task.
pub fn summary_kind(task: &SummaryTask) -> (r: &'static str)
    ensures
        r@ == kind_of(task.deep_view()),
{
    match &task.boundary {
        ResultBoundary::CommitNavigation { .. } => "branch_summary",
        _ => "compaction",
    }
}

fn is_branch_summary(task: &SummaryTask) -> (r: bool)
    ensures
        r == (task.deep_view().boundary is CommitNavigation),
{
    match &task.boundary {
        ResultBoundary::CommitNavigation { .. } => true,
        _ => false,
    }
}

/// The reason of a compaction: its own, or that it was asked for.
pub open spec fn reason_of(task: SummaryTaskView) -> Option<Seq<char>> {
    match task.reason {
        Some(reason) => Some(reason),
        None => if task.boundary is Finish {
            Some("manual"@)
        } else {
            None
        },
    }
}

/// Gives the reason of a compaction. Only one that was asked for may lack it.
pub fn compaction_reason(task: &SummaryTask) -> (r: String)
    requires
        reason_of(task.deep_view()) is Some,
    ensures
        Some(r@) == reason_of(task.deep_view()),
{
    match &task.reason {
        Some(reason) => reason.clone(),
        None => "manual".to_string(),
    }
}

/// The hook that decides about a structural task.
#[derive(Debug, PartialEq, Eq)]
pub enum DecisionHook {
    BeforeNavigation,
    BeforeCompaction { reason: String },
}

/// Contents of a [`DecisionHook`].
pub enum DecisionHookView {
    BeforeNavigation,
    BeforeCompaction { reason: Seq<char> },
}

impl DeepView for DecisionHook {
    type V = DecisionHookView;

    open spec fn deep_view(&self) -> DecisionHookView {
        match self {
            DecisionHook::BeforeNavigation => DecisionHookView::BeforeNavigation,
            DecisionHook::BeforeCompaction { reason } => DecisionHookView::BeforeCompaction {
                reason: reason@,
            },
        }
    }
}

/// The hook that decides about a structural task. A compaction tells its reason.
pub open spec fn hook_of(task: SummaryTaskView) -> Result<DecisionHookView, Seq<char>> {
    if task.boundary is CommitNavigation {
        Ok(DecisionHookView::BeforeNavigation)
    } else {
        match reason_of(task) {
            Some(reason) => Ok(DecisionHookView::BeforeCompaction { reason }),
            None => Err(
                "In-run compaction task "@ + task.task_id + " is missing its reason"@,
            ),
        }
    }
}

/// Finds the hook that decides about a structural task.
pub fn decision_hook(task: &SummaryTask) -> (r: Result<DecisionHook, String>)
    ensures
        match hook_of(task.deep_view()) {
            Ok(hook) => r is Ok && r->Ok_0.deep_view() == hook,
            Err(message) => r is Err && r->Err_0@ == message,
        },
{
    match (&task.boundary, &task.reason) {
        (ResultBoundary::CommitNavigation { .. }, _) => Ok(DecisionHook::BeforeNavigation),
        (ResultBoundary::ResumeCheckpoint { .. }, None) => {
            let named = join("In-run compaction task ".to_string(), task.task_id.as_str());
            Err(join(named, " is missing its reason"))
        },
        _ => Ok(DecisionHook::BeforeCompaction { reason: compaction_reason(task) }),
    }
}

/// Makes an operation error.
pub fn operation_error(code: &str, message: &str, details: Option<ErrorDetails>) -> (r: OperationError)
    ensures
        r.deep_view() == (OperationErrorView {
            code: code@,
            message: message@,
            details: details.deep_view(),
        }),
{
    OperationError { code: code.to_string(), message: message.to_string(), details }
}

/// Options under which a provider must answer at once.
pub open spec fn undeferred(options: StreamOptionsView) -> StreamOptionsView {
    StreamOptionsView { deferred: Some(flag_value(false)), ..options }
}

/// Makes options under which a provider must answer at once.
pub fn without_deferral(options: &StreamOptions) -> (r: StreamOptions)
    ensures
        r.deep_view() == undeferred(options.deep_view()),
{
    let mut options = options.clone();
    options.deferred = Some(from_flag(false));
    options
}

/// What a structural task generates with.
pub open spec fn context_of(
    config: ConfigView,
    default_delay_ms: u64,
    result_entry_id: Seq<char>,
    configuration: LaneConfigurationView,
) -> SummaryContextView {
    SummaryContextView {
        result_entry_id,
        configuration,
        stream_options: undeferred(config.stream_options),
        retry_policy: normalized(config.retry_policy, default_delay_ms),
    }
}

/// Makes what a structural task generates with.
pub fn summary_context(
    config: &Config,
    default_delay_ms: u64,
    result_entry_id: String,
    configuration: LaneConfiguration,
) -> (r: SummaryContext)
    requires
        countable(config.retry_policy),
    ensures
        r.deep_view() == context_of(
            config.deep_view(),
            default_delay_ms,
            result_entry_id@,
            configuration.deep_view(),
        ),
{
    SummaryContext {
        result_entry_id,
        configuration,
        stream_options: without_deferral(&config.stream_options),
        retry_policy: normalized_retry_policy(&config.retry_policy, default_delay_ms),
    }
}

/// A finished compaction.
#[derive(Debug, PartialEq, Eq)]
pub struct CompactResult {
    pub summary: String,
    pub retained_tail: Vec<AgentMessage>,
    pub tokens_before: u64,
    pub details: Json,
    pub usage: Option<Usage>,
}

/// Contents of a [`CompactResult`].
pub struct CompactResultView {
    pub summary: Seq<char>,
    pub retained_tail: Seq<AgentMessageView>,
    pub tokens_before: u64,
    pub details: serde_json::Value,
    pub usage: Option<UsageView>,
}

impl DeepView for CompactResult {
    type V = CompactResultView;

    open spec fn deep_view(&self) -> CompactResultView {
        CompactResultView {
            summary: self.summary.deep_view(),
            retained_tail: self.retained_tail.deep_view(),
            tokens_before: self.tokens_before,
            details: self.details.deep_view(),
            usage: self.usage.deep_view(),
        }
    }
}

/// A finished branch summary.
#[derive(Debug, PartialEq, Eq)]
pub struct BranchSummaryResult {
    pub summary: String,
    pub read_files: Vec<String>,
    pub modified_files: Vec<String>,
    pub usage: Option<Usage>,
}

/// Contents of a [`BranchSummaryResult`].
pub struct BranchSummaryResultView {
    pub summary: Seq<char>,
    pub read_files: Seq<Seq<char>>,
    pub modified_files: Seq<Seq<char>>,
    pub usage: Option<UsageView>,
}

impl DeepView for BranchSummaryResult {
    type V = BranchSummaryResultView;

    open spec fn deep_view(&self) -> BranchSummaryResultView {
        BranchSummaryResultView {
            summary: self.summary.deep_view(),
            read_files: self.read_files.deep_view(),
            modified_files: self.modified_files.deep_view(),
            usage: self.usage.deep_view(),
        }
    }
}

/// What a structural task came to.
#[derive(Debug, PartialEq, Eq)]
pub enum StructuralOutcome {
    Compaction { result_entry_id: String, result: CompactResult, from_hook: bool },
    BranchSummary { result_entry_id: String, result: BranchSummaryResult, from_hook: bool },
    Declined,
    Failed { error: OperationError },
}

/// Contents of a [`StructuralOutcome`].
#[allow(inconsistent_fields)]
pub enum StructuralOutcomeView {
    Compaction { result_entry_id: Seq<char>, result: CompactResultView, from_hook: bool },
    BranchSummary { result_entry_id: Seq<char>, result: BranchSummaryResultView, from_hook: bool },
    Declined,
    Failed { error: OperationErrorView },
}

impl DeepView for StructuralOutcome {
    type V = StructuralOutcomeView;

    open spec fn deep_view(&self) -> StructuralOutcomeView {
        match self {
            StructuralOutcome::Compaction { result_entry_id, result, from_hook } => {
                StructuralOutcomeView::Compaction {
                    result_entry_id: result_entry_id.deep_view(),
                    result: result.deep_view(),
                    from_hook: *from_hook,
                }
            },
            StructuralOutcome::BranchSummary { result_entry_id, result, from_hook } => {
                StructuralOutcomeView::BranchSummary {
                    result_entry_id: result_entry_id.deep_view(),
                    result: result.deep_view(),
                    from_hook: *from_hook,
                }
            },
            StructuralOutcome::Declined => StructuralOutcomeView::Declined,
            StructuralOutcome::Failed { error } => StructuralOutcomeView::Failed {
                error: error.deep_view(),
            },
        }
    }
}

impl StructuralOutcomeView {
    /// The usage that the outcome reports.
    pub open spec fn usage(self) -> Option<UsageView> {
        match self {
            StructuralOutcomeView::Compaction { result, .. } => result.usage,
            StructuralOutcomeView::BranchSummary { result, .. } => result.usage,
            _ => None,
        }
    }

    /// Whether a hook made the result.
    pub open spec fn from_hook(self) -> bool {
        match self {
            StructuralOutcomeView::Compaction { from_hook, .. } => from_hook,
            StructuralOutcomeView::BranchSummary { from_hook, .. } => from_hook,
            _ => false,
        }
    }

    /// Whether the usage of the outcome has to be recorded: that of a hook's
    /// result has not been.
    pub open spec fn records_usage(self) -> bool {
        self.from_hook() && self.usage() is Some
    }

    /// The status of an operation with this outcome.
    pub open spec fn status(self) -> TerminalStatus {
        match self {
            StructuralOutcomeView::Declined => TerminalStatus::Declined,
            StructuralOutcomeView::Failed { .. } => TerminalStatus::Failed,
            _ => TerminalStatus::Completed,
        }
    }

    /// The error of an operation with this outcome.
    pub open spec fn error(self) -> Option<OperationErrorView> {
        match self {
            StructuralOutcomeView::Failed { error } => Some(error),
            _ => None,
        }
    }
}

/// The usage that an outcome reports.
pub fn outcome_usage(outcome: &StructuralOutcome) -> (r: Option<Usage>)
    ensures
        r.deep_view() == outcome.deep_view().usage(),
{
    match outcome {
        StructuralOutcome::Compaction { result, .. } => result.usage.clone(),
        StructuralOutcome::BranchSummary { result, .. } => result.usage.clone(),
        _ => None,
    }
}

/// Whether a usage id has to be reserved for an outcome.
pub fn records_hook_usage(outcome: &StructuralOutcome) -> (r: bool)
    ensures
        r == outcome.deep_view().records_usage(),
{
    match outcome {
        StructuralOutcome::Compaction { result, from_hook, .. } => *from_hook
            && result.usage.is_some(),
        StructuralOutcome::BranchSummary { result, from_hook, .. } => *from_hook
            && result.usage.is_some(),
        _ => false,
    }
}

/// The preparation of a structural task whose decision is due, which must be
/// stored and of the kind of the task as it was.
pub fn read_structural_preparation(
    deciding: &SummaryTask,
    current: &SummaryTask,
    stored: Option<DurableStructuralPreparation>,
) -> (r: Result<DurableStructuralPreparation, String>)
    ensures
        r is Ok <==> stored is Some && kind_of(deciding.deep_view()) == kind_of(
            current.deep_view(),
        ),
        r is Ok ==> Some(r->Ok_0) == stored,
        r is Err ==> r->Err_0@ == "Structural task "@ + deciding.deep_view().task_id
            + " is missing its "@ + kind_of(deciding.deep_view()) + " preparation"@,
{
    proof {
        lemma_kinds_differ();
    }
    match stored {
        Some(preparation) if is_branch_summary(deciding) == is_branch_summary(current) => Ok(
            preparation,
        ),
        _ => {
            let named = join("Structural task ".to_string(), deciding.task_id.as_str());
            let lacking = join(join(named, " is missing its "), summary_kind(deciding));
            Err(join(lacking, " preparation"))
        },
    }
}

proof fn lemma_kinds_differ()
    ensures
        "branch_summary"@ != "compaction"@,
{
    reveal_strlit("branch_summary");
    reveal_strlit("compaction");
    assert("branch_summary"@.len() != "compaction"@.len());
}

/// What one attempt of a structural task works on.
#[derive(Debug, PartialEq, Eq)]
pub enum AttemptPreparation {
    Compaction(CompactionPreparation),
    BranchSummary(BranchPreparation),
}

/// Contents of an [`AttemptPreparation`].
#[allow(inconsistent_fields)]
pub enum AttemptPreparationView {
    Compaction(CompactionPreparationView),
    BranchSummary(BranchPreparationView),
}

impl DeepView for AttemptPreparation {
    type V = AttemptPreparationView;

    open spec fn deep_view(&self) -> AttemptPreparationView {
        match self {
            AttemptPreparation::Compaction(preparation) => AttemptPreparationView::Compaction(
                preparation.deep_view(),
            ),
            AttemptPreparation::BranchSummary(preparation) => {
                AttemptPreparationView::BranchSummary(preparation.deep_view())
            },
        }
    }
}

/// What an attempt works on: the stored preparation, of the kind of its task.
pub open spec fn attempt_input(
    task: SummaryTaskView,
    preparation: DurableStructuralPreparationView,
) -> Option<AttemptPreparationView> {
    if task.boundary is CommitNavigation {
        match branch_of(preparation) {
            Some(branch) => Some(AttemptPreparationView::BranchSummary(branch)),
            None => None,
        }
    } else {
        match compaction_of(preparation) {
            Some(compaction) => Some(AttemptPreparationView::Compaction(compaction)),
            None => None,
        }
    }
}

/// Reads what an attempt works on. The stored preparation must be there and of
/// the kind of the task.
pub fn read_attempt_preparation(
    ready: &SummaryTask,
    current: &SummaryTask,
    stored: Option<DurableStructuralPreparation>,
) -> (r: Result<AttemptPreparation, String>)
    ensures
        r is Ok <==> stored is Some && kind_of(ready.deep_view()) == kind_of(current.deep_view())
            && attempt_input(ready.deep_view(), stored->Some_0.deep_view()) is Some,
        r is Ok ==> Some(r->Ok_0.deep_view()) == attempt_input(
            ready.deep_view(),
            stored->Some_0.deep_view(),
        ),
        r is Err ==> r->Err_0@ == "Structural task "@ + ready.deep_view().task_id
            + " has invalid durable preparation"@,
{
    proof {
        lemma_kinds_differ();
    }
    let named = join("Structural task ".to_string(), ready.task_id.as_str());
    let invalid = join(named, " has invalid durable preparation");
    match stored {
        Some(preparation) if is_branch_summary(ready) == is_branch_summary(current) => {
            if is_branch_summary(ready) {
                match branch_preparation(&preparation) {
                    Some(branch) => Ok(AttemptPreparation::BranchSummary(branch)),
                    None => Err(invalid),
                }
            } else {
                match compaction_preparation(&preparation) {
                    Some(compaction) => Ok(AttemptPreparation::Compaction(compaction)),
                    None => Err(invalid),
                }
            }
        },
        _ => Err(invalid),
    }
}

/// What the hook on a structural task says.
#[derive(Clone, Copy, Debug, PartialEq, Eq, Structural)]
pub enum HookVerdict {
    /// The task is not wanted.
    Decline,
    /// The hook offers a result of its own.
    Offer,
    /// The task runs.
    Proceed,
}

/// The key under which a hook offers the result of a task.
pub open spec fn offer_key(task: SummaryTaskView) -> Seq<char> {
    if task.boundary is CommitNavigation {
        "summary"@
    } else {
        "compaction"@
    }
}

/// What the hook on a structural task says, by the JSON value it returned.
pub open spec fn verdict_of(task: SummaryTaskView, hook: serde_json::Value) -> HookVerdict {
    if member_of(hook, "decline"@) matches Some(value) && flag_of(value) == Some(true) {
        HookVerdict::Decline
    } else if member_of(hook, offer_key(task)) is Some {
        HookVerdict::Offer
    } else {
        HookVerdict::Proceed
    }
}

/// Reads what the hook on a structural task says, and the result it offers.
pub fn read_verdict(task: &SummaryTask, hook: &Json) -> (r: (HookVerdict, Option<Json>))
    ensures
        r.0 == verdict_of(task.deep_view(), hook.deep_view()),
        r.1.deep_view() == if r.0 == HookVerdict::Offer {
            member_of(hook.deep_view(), offer_key(task.deep_view()))
        } else {
            None
        },
{
    let declined = match member(hook, "decline") {
        Some(value) => match flag(&value) {
            Some(declined) => declined,
            None => false,
        },
        None => false,
    };
    if declined {
        return (HookVerdict::Decline, None);
    }
    let offer = if is_branch_summary(task) {
        member(hook, "summary")
    } else {
        member(hook, "compaction")
    };
    if offer.is_some() {
        (HookVerdict::Offer, offer)
    } else {
        (HookVerdict::Proceed, None)
    }
}

/// A decision that moves a structural task.
pub open spec fn structural_move<T>(next: OperationStateView, result: T) -> OperationCommandView<
    T,
> {
    OperationCommandView::Commit {
        writes: Seq::empty(),
        operation_state: next,
        lane: None,
        result,
        events: Seq::empty(),
    }
}

/// The move of a structural task from its decision to its first attempt.
pub open spec fn ready_command(
    config: ConfigView,
    default_delay_ms: u64,
    result_entry_id: Seq<char>,
    configuration: LaneConfigurationView,
    current: OperationStateView,
    task: SummaryTaskView,
) -> OperationCommandView<ProcedureResultView> {
    structural_move(
        OperationStateView::SummaryReady {
            scope: current.scope(),
            task,
            summary_context: context_of(config, default_delay_ms, result_entry_id, configuration),
            next_attempt: 1,
        },
        ProcedureResultView::Continue,
    )
}

fn move_to(state: OperationState) -> (r: OperationCommand<ProcedureResult>)
    ensures
        r.deep_view() == structural_move(state.deep_view(), ProcedureResultView::Continue),
{
    let writes: Vec<Write> = Vec::new();
    let events: Vec<PlannedEvent> = Vec::new();
    assert(writes.deep_view() =~= Seq::empty());
    assert(events.deep_view() =~= Seq::empty());
    OperationCommand::Commit {
        writes,
        operation_state: state,
        lane: None,
        result: ProcedureResult::Continue,
        events,
    }
}

/// Moves a structural task from its decision to its first attempt.
pub fn publish_structural_ready(
    config: &Config,
    default_delay_ms: u64,
    result_entry_id: String,
    state: &LaneRuntimeState,
    current: &OperationState,
) -> (r: OperationCommand<ProcedureResult>)
    requires
        current.deep_view() is SummaryDeciding,
        countable(config.retry_policy),
    ensures
        current.deep_view() matches OperationStateView::SummaryDeciding { task, .. }
            && r.deep_view() == ready_command(
            config.deep_view(),
            default_delay_ms,
            result_entry_id@,
            state.deep_view().configuration,
            current.deep_view(),
            task,
        ),
{
    match current {
        OperationState::SummaryDeciding { scope, task } => move_to(
            OperationState::SummaryReady {
                scope: scope.clone(),
                task: task.clone(),
                summary_context: summary_context(
                    config,
                    default_delay_ms,
                    result_entry_id,
                    state.configuration.clone(),
                ),
                next_attempt: 1,
            },
        ),
        _ => vstd::pervasive::unreached(),
    }
}

/// The leaf of an attempt that is under way.
pub open spec fn pending_of(ready: OperationStateView) -> OperationStateView {
    match ready {
        OperationStateView::SummaryReady { scope, task, summary_context, next_attempt } => {
            OperationStateView::SummaryEffectPending {
                scope,
                task,
                summary_context,
                attempt: next_attempt,
                request: None,
                usage_ids: Seq::empty(),
            }
        },
        _ => arbitrary(),
    }
}

/// Starts an attempt of a structural task.
pub fn effect_pending_from_ready(ready: &OperationState) -> (r: OperationState)
    requires
        ready.deep_view() is SummaryReady,
    ensures
        r.deep_view() == pending_of(ready.deep_view()),
{
    match ready {
        OperationState::SummaryReady { scope, task, summary_context, next_attempt } => {
            let usage_ids: Vec<String> = Vec::new();
            assert(usage_ids.deep_view() =~= Seq::empty());
            OperationState::SummaryEffectPending {
                scope: scope.clone(),
                task: task.clone(),
                summary_context: summary_context.clone(),
                attempt: *next_attempt,
                request: None,
                usage_ids,
            }
        },
        _ => vstd::pervasive::unreached(),
    }
}

/// Records that an attempt is under way.
pub fn publish_attempt_intent(current: &OperationState) -> (r: OperationCommand<OperationState>)
    requires
        current.deep_view() is SummaryReady,
    ensures
        r.deep_view() == structural_move(
            pending_of(current.deep_view()),
            pending_of(current.deep_view()),
        ),
{
    let effect_pending = effect_pending_from_ready(current);
    let writes: Vec<Write> = Vec::new();
    let events: Vec<PlannedEvent> = Vec::new();
    assert(writes.deep_view() =~= Seq::empty());
    assert(events.deep_view() =~= Seq::empty());
    OperationCommand::Commit {
        writes,
        operation_state: effect_pending.clone(),
        lane: None,
        result: effect_pending,
        events,
    }
}

/// What the attempts of a leaf generate with.
pub open spec fn context_in(state: OperationStateView) -> Option<SummaryContextView> {
    match state {
        OperationStateView::SummaryReady { summary_context, .. } => Some(summary_context),
        OperationStateView::SummaryEffectPending { summary_context, .. } => Some(summary_context),
        OperationStateView::SummaryRetryWait { summary_context, .. } => Some(summary_context),
        _ => None,
    }
}

/// Gives what the attempts of a leaf generate with.
pub fn summary_context_for(effect: &OperationState) -> (r: SummaryContext)
    requires
        context_in(effect.deep_view()) is Some,
    ensures
        Some(r.deep_view()) == context_in(effect.deep_view()),
{
    match effect {
        OperationState::SummaryEffectPending { summary_context, .. }
        | OperationState::SummaryReady { summary_context, .. }
        | OperationState::SummaryRetryWait { summary_context, .. } => summary_context.clone(),
        _ => vstd::pervasive::unreached(),
    }
}

/// The leaf in which a structural task waits for its next attempt.
pub open spec fn waiting_of(
    effect: OperationStateView,
    not_before: u64,
    error_message: Seq<char>,
) -> OperationStateView {
    match effect {
        OperationStateView::SummaryEffectPending {
            scope,
            task,
            summary_context,
            attempt,
            ..
        } => OperationStateView::SummaryRetryWait {
            scope,
            task,
            summary_context,
            next_attempt: (attempt + 1) as u32,
            not_before,
            error_message,
        },
        _ => arbitrary(),
    }
}

/// Lets a structural task wait for its next attempt.
pub fn retry_wait_from_effect(
    effect: &OperationState,
    not_before: u64,
    error_message: &String,
) -> (r: OperationState)
    requires
        effect.deep_view() matches OperationStateView::SummaryEffectPending { attempt, .. }
            && attempt < u32::MAX,
    ensures
        r.deep_view() == waiting_of(effect.deep_view(), not_before, error_message@),
{
    match effect {
        OperationState::SummaryEffectPending { scope, task, summary_context, attempt, .. } => {
            OperationState::SummaryRetryWait {
                scope: scope.clone(),
                task: task.clone(),
                summary_context: summary_context.clone(),
                next_attempt: *attempt + 1,
                not_before,
                error_message: error_message.clone(),
            }
        },
        _ => vstd::pervasive::unreached(),
    }
}

/// Whether an attempt that went wrong leaves another one.
pub open spec fn attempts_left(effect: OperationStateView) -> bool {
    effect matches OperationStateView::SummaryEffectPending { attempt, summary_context, .. }
        && attempt < summary_context.retry_policy.max_attempts
}

/// What one attempt of a structural task came to.
#[derive(Debug, PartialEq, Eq)]
pub enum StructuralAttempt {
    Compaction { result: CompactResult },
    BranchSummary { result: BranchSummaryResult },
    Error { error: OperationError, retryable: bool },
}

/// Contents of a [`StructuralAttempt`].
#[allow(inconsistent_fields)]
pub enum StructuralAttemptView {
    Compaction { result: CompactResultView },
    BranchSummary { result: BranchSummaryResultView },
    Error { error: OperationErrorView, retryable: bool },
}

impl DeepView for StructuralAttempt {
    type V = StructuralAttemptView;

    open spec fn deep_view(&self) -> StructuralAttemptView {
        match self {
            StructuralAttempt::Compaction { result } => StructuralAttemptView::Compaction {
                result: result.deep_view(),
            },
            StructuralAttempt::BranchSummary { result } => StructuralAttemptView::BranchSummary {
                result: result.deep_view(),
            },
            StructuralAttempt::Error { error, retryable } => StructuralAttemptView::Error {
                error: error.deep_view(),
                retryable: *retryable,
            },
        }
    }
}

/// Why a summary was not made.
#[derive(Clone, Copy, Debug, PartialEq, Eq, Structural)]
pub enum SummaryErrorCode {
    Aborted,
    SummarizationFailed,
}

/// The error of a summary that was not made.
#[derive(Debug, PartialEq, Eq)]
pub struct SummaryError {
    pub code: SummaryErrorCode,
    pub message: String,
}

/// The name of an error code.
pub open spec fn summary_code(code: SummaryErrorCode) -> Seq<char> {
    match code {
        SummaryErrorCode::Aborted => "aborted"@,
        SummaryErrorCode::SummarizationFailed => "summarization_failed"@,
    }
}

/// An attempt that failed. It counts as retryable if the last response that came
/// in does; without a response it does not.
pub open spec fn failed_attempt(
    code: SummaryErrorCode,
    message: Seq<char>,
    last_retryable: Option<bool>,
) -> StructuralAttemptView {
    StructuralAttemptView::Error {
        error: OperationErrorView { code: summary_code(code), message, details: None },
        retryable: last_retryable == Some(true),
    }
}

fn fail_attempt(error: SummaryError, last_retryable: Option<bool>) -> (r: StructuralAttempt)
    ensures
        r.deep_view() == failed_attempt(error.code, error.message@, last_retryable),
{
    let code = match error.code {
        SummaryErrorCode::Aborted => "aborted",
        SummaryErrorCode::SummarizationFailed => "summarization_failed",
    };
    let retryable = match last_retryable {
        Some(retryable) => retryable,
        None => false,
    };
    StructuralAttempt::Error { error: operation_error(code, error.message.as_str(), None), retryable }
}

/// What an attempt of a compaction came to.
pub fn compaction_attempt(
    made: Result<CompactResult, SummaryError>,
    last_retryable: Option<bool>,
) -> (r: StructuralAttempt)
    ensures
        r.deep_view() == (match made {
            Ok(result) => StructuralAttemptView::Compaction { result: result.deep_view() },
            Err(error) => failed_attempt(error.code, error.message@, last_retryable),
        }),
{
    match made {
        Ok(result) => StructuralAttempt::Compaction { result },
        Err(error) => fail_attempt(error, last_retryable),
    }
}

/// What an attempt of a branch summary came to.
pub fn branch_attempt(
    made: Result<BranchSummaryResult, SummaryError>,
    last_retryable: Option<bool>,
) -> (r: StructuralAttempt)
    ensures
        r.deep_view() == (match made {
            Ok(result) => StructuralAttemptView::BranchSummary { result: result.deep_view() },
            Err(error) => failed_attempt(error.code, error.message@, last_retryable),
        }),
{
    match made {
        Ok(result) => StructuralAttempt::BranchSummary { result },
        Err(error) => fail_attempt(error, last_retryable),
    }
}

/// What follows an attempt.
#[derive(Debug, PartialEq, Eq)]
pub enum AttemptVerdict {
    /// The task is over.
    Publish(StructuralOutcome),
    /// The task waits in this leaf for another attempt.
    Wait(OperationState),
}

/// Contents of an [`AttemptVerdict`].
#[allow(inconsistent_fields)]
pub enum AttemptVerdictView {
    Publish(StructuralOutcomeView),
    Wait(OperationStateView),
}

impl DeepView for AttemptVerdict {
    type V = AttemptVerdictView;

    open spec fn deep_view(&self) -> AttemptVerdictView {
        match self {
            AttemptVerdict::Publish(outcome) => AttemptVerdictView::Publish(outcome.deep_view()),
            AttemptVerdict::Wait(state) => AttemptVerdictView::Wait(state.deep_view()),
        }
    }
}

/// What follows an attempt: its result, or another attempt after an error that
/// is worth one while attempts are left, or the failure of the task.
pub open spec fn attempt_verdict(
    effect: OperationStateView,
    attempt: StructuralAttemptView,
    not_before: u64,
) -> AttemptVerdictView {
    match attempt {
        StructuralAttemptView::Compaction { result } => AttemptVerdictView::Publish(
            StructuralOutcomeView::Compaction {
                result_entry_id: context_in(effect)->Some_0.result_entry_id,
                result,
                from_hook: false,
            },
        ),
        StructuralAttemptView::BranchSummary { result } => AttemptVerdictView::Publish(
            StructuralOutcomeView::BranchSummary {
                result_entry_id: context_in(effect)->Some_0.result_entry_id,
                result,
                from_hook: false,
            },
        ),
        StructuralAttemptView::Error { error, retryable } => if retryable && attempts_left(
            effect,
        ) {
            AttemptVerdictView::Wait(waiting_of(effect, not_before, error.message))
        } else {
            AttemptVerdictView::Publish(StructuralOutcomeView::Failed { error })
        },
    }
}

fn may_retry(effect: &OperationState) -> (r: bool)
    ensures
        r == attempts_left(effect.deep_view()),
{
    match effect {
        OperationState::SummaryEffectPending { attempt, summary_context, .. } => *attempt
            < summary_context.retry_policy.max_attempts,
        _ => false,
    }
}

/// Decides what follows an attempt.
pub fn publish_attempt_result(
    effect: &OperationState,
    attempt: StructuralAttempt,
    delay_ms: u64,
    now: u64,
) -> (r: AttemptVerdict)
    requires
        effect.deep_view() is SummaryEffectPending,
    ensures
        r.deep_view() == attempt_verdict(
            effect.deep_view(),
            attempt.deep_view(),
            resume_time(delay_ms, now),
        ),
{
    match attempt {
        StructuralAttempt::Compaction { result } => AttemptVerdict::Publish(
            StructuralOutcome::Compaction {
                result_entry_id: summary_context_for(effect).result_entry_id,
                result,
                from_hook: false,
            },
        ),
        StructuralAttempt::BranchSummary { result } => AttemptVerdict::Publish(
            StructuralOutcome::BranchSummary {
                result_entry_id: summary_context_for(effect).result_entry_id,
                result,
                from_hook: false,
            },
        ),
        StructuralAttempt::Error { error, retryable } => {
            if retryable && may_retry(effect) {
                let not_before: u64 = retry_not_before(delay_ms, now);
                AttemptVerdict::Wait(retry_wait_from_effect(effect, not_before, &error.message))
            } else {
                AttemptVerdict::Publish(StructuralOutcome::Failed { error })
            }
        },
    }
}

/// The error of an attempt that was interrupted.
pub open spec fn interruption() -> OperationErrorView {
    OperationErrorView {
        code: "structural_interrupted"@,
        message:
            "Structural summary attempt was interrupted and its external outcome is unknown"@,
        details: None,
    }
}

/// Decides what follows an attempt that was interrupted, which counts as an
/// error worth another attempt.
pub fn recover_structural_generation(effect: &OperationState, delay_ms: u64, now: u64) -> (r:
    AttemptVerdict)
    requires
        effect.deep_view() is SummaryEffectPending,
    ensures
        r.deep_view() == attempt_verdict(
            effect.deep_view(),
            StructuralAttemptView::Error { error: interruption(), retryable: true },
            resume_time(delay_ms, now),
        ),
{
    let error = operation_error(
        "structural_interrupted",
        "Structural summary attempt was interrupted and its external outcome is unknown",
        None,
    );
    publish_attempt_result(
        effect,
        StructuralAttempt::Error { error, retryable: true },
        delay_ms,
        now,
    )
}

/// Moves a structural task to the leaf in which it waits.
pub fn publish_wait(waiting: OperationState) -> (r: OperationCommand<ProcedureResult>)
    ensures
        r.deep_view() == structural_move(waiting.deep_view(), ProcedureResultView::Continue),
{
    move_to(waiting)
}

/// The failure of a task whose model this process does not have.
pub fn model_unavailable(identity: &ModelIdentity) -> (r: OperationError)
    ensures
        r.deep_view() == (OperationErrorView {
            code: "model_unavailable"@,
            message: "The configured model is unavailable in this process"@,
            details: Some(ErrorDetailsView::Model(identity.deep_view())),
        }),
{
    operation_error(
        "model_unavailable",
        "The configured model is unavailable in this process",
        Some(ErrorDetails::Model(identity.clone())),
    )
}

/// The move of a waiting structural task to its next attempt.
pub open spec fn again(retry: OperationStateView, current: OperationStateView) -> OperationStateView {
    match retry {
        OperationStateView::SummaryRetryWait { task, summary_context, next_attempt, .. } => {
            OperationStateView::SummaryReady {
                scope: current.scope(),
                task,
                summary_context,
                next_attempt,
            }
        },
        _ => arbitrary(),
    }
}

/// Moves a waiting structural task to its next attempt.
pub fn run_structural_retry_wait(retry: &OperationState, current: &OperationState) -> (r:
    OperationCommand<ProcedureResult>)
    requires
        retry.deep_view() is SummaryRetryWait,
        !current.deep_view().is_deferred(),
    ensures
        r.deep_view() == structural_move(
            again(retry.deep_view(), current.deep_view()),
            ProcedureResultView::Continue,
        ),
{
    match retry {
        OperationState::SummaryRetryWait { task, summary_context, next_attempt, .. } => move_to(
            OperationState::SummaryReady {
                scope: current.scope().clone(),
                task: task.clone(),
                summary_context: summary_context.clone(),
                next_attempt: *next_attempt,
            },
        ),
        _ => vstd::pervasive::unreached(),
    }
}

/// The entry of a compaction.
pub open spec fn compaction_entry(
    result_entry_id: Seq<char>,
    parent_id: Option<Seq<char>>,
    result: CompactResultView,
    from_hook: bool,
) -> NewEntryView {
    NewEntryView::Compaction(
        NewCompactionEntryView {
            id: result_entry_id,
            parent_id,
            custom_type: None,
            summary: result.summary,
            retained_tail: result.retained_tail,
            tokens_before: result.tokens_before,
            details: Some(SummaryDetailsView::Other(result.details)),
            usage: result.usage,
            from_hook,
        },
    )
}

/// The entry of a branch summary, which follows the target of its navigation.
pub open spec fn branch_summary_entry(
    result_entry_id: Seq<char>,
    target_id: Seq<char>,
    from_id: Option<Seq<char>>,
    result: BranchSummaryResultView,
    from_hook: bool,
) -> NewEntryView {
    NewEntryView::BranchSummary(
        NewBranchSummaryEntryView {
            id: result_entry_id,
            parent_id: Some(target_id),
            custom_type: None,
            from_id,
            summary: result.summary,
            details: Some(
                SummaryDetailsView::Files {
                    read_files: result.read_files,
                    modified_files: result.modified_files,
                },
            ),
            usage: result.usage,
            from_hook,
        },
    )
}

/// The writes of an outcome besides its usage: a compaction is inserted behind
/// the tip, a branch summary behind the target of the navigation, which gets its
/// label; either becomes the tip.
pub open spec fn outcome_writes(
    lane: Seq<char>,
    tip_id: Option<Seq<char>>,
    meta: OperationMetaView,
    task: SummaryTaskView,
    outcome: StructuralOutcomeView,
) -> Seq<WriteView> {
    match outcome {
        StructuralOutcomeView::Compaction { result_entry_id, result, from_hook } => seq![
            WriteView::InsertEntry(compaction_entry(result_entry_id, tip_id, result, from_hook)),
            tip_write(lane, Some(result_entry_id)),
        ],
        StructuralOutcomeView::BranchSummary { result_entry_id, result, from_hook } => {
            match task.boundary {
                ResultBoundaryView::CommitNavigation { target_id, label } => {
                    let moved = seq![
                        tip_write(lane, Some(target_id)),
                        WriteView::InsertEntry(
                            branch_summary_entry(
                                result_entry_id,
                                target_id,
                                meta.source_tip_id,
                                result,
                                from_hook,
                            ),
                        ),
                        tip_write(lane, Some(result_entry_id)),
                    ];
                    match label {
                        Some(label) => moved.push(label_write(target_id, label)),
                        None => moved,
                    }
                },
                _ => Seq::empty(),
            }
        },
        _ => Seq::empty(),
    }
}

/// The tip after an outcome.
pub open spec fn outcome_tip(
    tip_id: Option<Seq<char>>,
    outcome: StructuralOutcomeView,
) -> Option<Seq<char>> {
    match outcome {
        StructuralOutcomeView::Compaction { result_entry_id, .. } => Some(result_entry_id),
        StructuralOutcomeView::BranchSummary { result_entry_id, .. } => Some(result_entry_id),
        _ => tip_id,
    }
}

/// The usage row of an outcome whose usage is still to be recorded.
pub open spec fn outcome_usage_writes(
    outcome: StructuralOutcomeView,
    hook_usage_id: Option<Seq<char>>,
) -> Seq<WriteView> {
    match (hook_usage_id, outcome.usage()) {
        (Some(id), Some(usage)) => seq![
            WriteView::InsertUsage(
                UsageRowView {
                    id,
                    seq: 0,
                    usage,
                    entry_id: None,
                    adjustment: false,
                    details: None,
                },
            ),
        ],
        _ => Seq::empty(),
    }
}

/// The event that ends a structural task.
pub open spec fn outcome_event(
    lane: Seq<char>,
    operation_id: Seq<char>,
    meta: OperationMetaView,
    task: SummaryTaskView,
    tip_id: Option<Seq<char>>,
    outcome: StructuralOutcomeView,
    ended_at: u64,
) -> PlannedEventView {
    if task.boundary is CommitNavigation {
        navigation_end(
            lane,
            operation_id,
            meta.source_tip_id,
            tip_id,
            ended_at,
            outcome.status(),
            outcome.error(),
        )
    } else {
        PlannedEventView::Ready(
            HarnessEventView::CompactionEnd {
                lane,
                run_id: operation_id,
                reason: reason_of(task)->Some_0,
                ended_at,
                status: outcome.status(),
                entry_id: None,
                error: outcome.error(),
                recovery: None,
            },
        )
    }
}

/// Why an outcome cannot be published for a task: it is of the other kind, or the
/// task is a compaction whose reason no one knows.
pub open spec fn outcome_fault(task: SummaryTaskView, outcome: StructuralOutcomeView) -> Option<
    Seq<char>,
> {
    if outcome is Compaction && task.boundary is CommitNavigation {
        Some("Structural compaction result does not match branch_summary task "@ + task.task_id)
    } else if outcome is BranchSummary && !(task.boundary is CommitNavigation) {
        Some("Structural branch_summary result does not match compaction task "@ + task.task_id)
    } else if !(task.boundary is CommitNavigation) && reason_of(task) is None {
        Some("In-run compaction task "@ + task.task_id + " is missing its reason"@)
    } else {
        None
    }
}

/// The commit that ends an operation with the outcome of its structural task.
pub open spec fn outcome_command(
    lane: Seq<char>,
    operation_id: Seq<char>,
    tip_id: Option<Seq<char>>,
    current: OperationStateView,
    meta: OperationMetaView,
    task: SummaryTaskView,
    outcome: StructuralOutcomeView,
    hook_usage_id: Option<Seq<char>>,
    scratch: Seq<AddressView>,
    ended_at: u64,
) -> Result<OperationCommandView<ProcedureResultView>, Seq<char>> {
    match outcome_fault(task, outcome) {
        Some(message) => Err(message),
        None => {
            let tip = outcome_tip(tip_id, outcome);
            let record = result_record(meta, outcome.status(), tip, outcome.error(), ended_at);
            Ok(
                OperationCommandView::Finish {
                    writes: outcome_usage_writes(outcome, hook_usage_id) + outcome_writes(
                        lane,
                        tip_id,
                        meta,
                        task,
                        outcome,
                    ) + cleanup(operation_id, current, scratch),
                    record,
                    lane: Some(LanePatchView { tip_id: Some(tip), configuration: None, inbox: None }),
                    result: ProcedureResultView::Settled { outcome: record },
                    events: seq![
                        outcome_event(lane, operation_id, meta, task, tip, outcome, ended_at),
                    ],
                },
            )
        },
    }
}

fn write_outcome(
    lane_name: &String,
    tip_id: &Option<String>,
    meta: &OperationMeta,
    task: &SummaryTask,
    outcome: &StructuralOutcome,
) -> (r: Vec<Write>)
    ensures
        r.deep_view() == outcome_writes(
            lane_name@,
            tip_id.deep_view(),
            meta.deep_view(),
            task.deep_view(),
            outcome.deep_view(),
        ),
{
    let ghost expected = outcome_writes(
        lane_name@,
        tip_id.deep_view(),
        meta.deep_view(),
        task.deep_view(),
        outcome.deep_view(),
    );
    let writes = match outcome {
        StructuralOutcome::Compaction { result_entry_id, result, from_hook } => vec![
            Write::InsertEntry(
                NewEntry::Compaction(
                    NewCompactionEntry {
                        id: result_entry_id.clone(),
                        parent_id: tip_id.clone(),
                        custom_type: None,
                        summary: result.summary.clone(),
                        retained_tail: result.retained_tail.clone(),
                        tokens_before: result.tokens_before,
                        details: Some(SummaryDetails::Other(result.details.clone())),
                        usage: result.usage.clone(),
                        from_hook: *from_hook,
                    },
                ),
            ),
            write_tip(lane_name, Some(result_entry_id.clone())),
        ],
        StructuralOutcome::BranchSummary { result_entry_id, result, from_hook } => {
            match &task.boundary {
                ResultBoundary::CommitNavigation { target_id, label } => {
                    let mut moved = vec![
                        write_tip(lane_name, Some(target_id.clone())),
                        Write::InsertEntry(
                            NewEntry::BranchSummary(
                                NewBranchSummaryEntry {
                                    id: result_entry_id.clone(),
                                    parent_id: Some(target_id.clone()),
                                    custom_type: None,
                                    from_id: meta.source_tip_id.clone(),
                                    summary: result.summary.clone(),
                                    details: Some(
                                        SummaryDetails::Files {
                                            read_files: result.read_files.clone(),
                                            modified_files: result.modified_files.clone(),
                                        },
                                    ),
                                    usage: result.usage.clone(),
                                    from_hook: *from_hook,
                                },
                            ),
                        ),
                        write_tip(lane_name, Some(result_entry_id.clone())),
                    ];
                    if let Some(label) = label {
                        moved.push(write_label(target_id, label));
                    }
                    moved
                },
                _ => Vec::new(),
            }
        },
        _ => Vec::new(),
    };
    assert(writes.deep_view() =~= expected);
    writes
}

fn write_outcome_usage(outcome: &StructuralOutcome, hook_usage_id: Option<String>) -> (r: Vec<
    Write,
>)
    ensures
        r.deep_view() == outcome_usage_writes(outcome.deep_view(), hook_usage_id.deep_view()),
{
    let ghost expected = outcome_usage_writes(outcome.deep_view(), hook_usage_id.deep_view());
    let writes = match (hook_usage_id, outcome_usage(outcome)) {
        (Some(id), Some(usage)) => vec![
            Write::InsertUsage(
                UsageRow {
                    id,
                    seq: 0,
                    usage,
                    entry_id: None,
                    adjustment: false,
                    details: None,
                },
            ),
        ],
        _ => Vec::new(),
    };
    assert(writes.deep_view() =~= expected);
    writes
}

fn check_outcome(task: &SummaryTask, outcome: &StructuralOutcome) -> (r: Result<(), String>)
    ensures
        match outcome_fault(task.deep_view(), outcome.deep_view()) {
            Some(message) => r is Err && r->Err_0@ == message,
            None => r is Ok,
        },
{
    let branch = is_branch_summary(task);
    if let StructuralOutcome::Compaction { .. } = outcome {
        if branch {
            return Err(
                join(
                    "Structural compaction result does not match branch_summary task ".to_string(),
                    task.task_id.as_str(),
                ),
            );
        }
    }
    if let StructuralOutcome::BranchSummary { .. } = outcome {
        if !branch {
            return Err(
                join(
                    "Structural branch_summary result does not match compaction task ".to_string(),
                    task.task_id.as_str(),
                ),
            );
        }
    }
    match (&task.boundary, &task.reason) {
        (ResultBoundary::ResumeCheckpoint { .. }, None) => {
            let named = join("In-run compaction task ".to_string(), task.task_id.as_str());
            Err(join(named, " is missing its reason"))
        },
        _ => Ok(()),
    }
}

fn end_event(
    lane_name: &String,
    operation_id: &String,
    meta: &OperationMeta,
    task: &SummaryTask,
    tip_id: &Option<String>,
    status: TerminalStatus,
    error: &Option<OperationError>,
    ended_at: u64,
    Ghost(outcome): Ghost<StructuralOutcomeView>,
) -> (r: PlannedEvent)
    requires
        task.deep_view().boundary is CommitNavigation || reason_of(task.deep_view()) is Some,
        status == outcome.status(),
        error.deep_view() == outcome.error(),
    ensures
        r.deep_view() == outcome_event(
            lane_name@,
            operation_id@,
            meta.deep_view(),
            task.deep_view(),
            tip_id.deep_view(),
            outcome,
            ended_at,
        ),
{
    if is_branch_summary(task) {
        PlannedEvent::Ready(
            HarnessEvent::NavigationEnd {
                lane: lane_name.clone(),
                run_id: operation_id.clone(),
                from_tip_id: meta.source_tip_id.clone(),
                tip_id: tip_id.clone(),
                ended_at,
                status,
                error: error.clone(),
                recovery: None,
            },
        )
    } else {
        PlannedEvent::Ready(
            HarnessEvent::CompactionEnd {
                lane: lane_name.clone(),
                run_id: operation_id.clone(),
                reason: compaction_reason(task),
                ended_at,
                status,
                entry_id: None,
                error: error.clone(),
                recovery: None,
            },
        )
    }
}

/// Ends an operation with the outcome of its structural task, in one commit.
pub fn publish_structural_outcome(
    lane_name: &String,
    operation_id: &String,
    state: &LaneRuntimeState,
    current: &OperationState,
    meta: &OperationMeta,
    outcome: &StructuralOutcome,
    hook_usage_id: Option<String>,
    scratch: Vec<Address>,
    ended_at: u64,
) -> (r: Result<OperationCommand<ProcedureResult>, String>)
    requires
        current.deep_view().task() is Some,
        hook_usage_id is Some <==> outcome.deep_view().records_usage(),
    ensures
        match outcome_command(
            lane_name@,
            operation_id@,
            state.tip_id.deep_view(),
            current.deep_view(),
            meta.deep_view(),
            current.deep_view().task()->Some_0,
            outcome.deep_view(),
            hook_usage_id.deep_view(),
            scratch.deep_view(),
            ended_at,
        ) {
            Ok(command) => r is Ok && r->Ok_0.deep_view() == command,
            Err(message) => r is Err && r->Err_0@ == message,
        },
{
    let task = match state_task(current) {
        Some(task) => task,
        None => vstd::pervasive::unreached(),
    };
    if let Err(message) = check_outcome(task, outcome) {
        return Err(message);
    }
    let (status, error, tip_id) = match outcome {
        StructuralOutcome::Compaction { result_entry_id, .. } => (
            TerminalStatus::Completed,
            None,
            Some(result_entry_id.clone()),
        ),
        StructuralOutcome::BranchSummary { result_entry_id, .. } => (
            TerminalStatus::Completed,
            None,
            Some(result_entry_id.clone()),
        ),
        StructuralOutcome::Declined => (TerminalStatus::Declined, None, state.tip_id.clone()),
        StructuralOutcome::Failed { error } => (
            TerminalStatus::Failed,
            Some(error.clone()),
            state.tip_id.clone(),
        ),
    };
    let event = end_event(
        lane_name,
        operation_id,
        meta,
        task,
        &tip_id,
        status,
        &error,
        ended_at,
        Ghost(outcome.deep_view()),
    );
    let ghost event_view = event.deep_view();
    let events = vec![event];
    assert(events.deep_view() =~= seq![event_view]);
    let mut writes = write_outcome_usage(outcome, hook_usage_id);
    append_all(&mut writes, write_outcome(lane_name, &state.tip_id, meta, task, outcome));
    append_all(&mut writes, operation_cleanup_writes(operation_id, current, scratch));
    let record = operation_result_record(meta, status, tip_id.clone(), error, ended_at);
    Ok(
        OperationCommand::Finish {
            writes,
            record: record.clone(),
            lane: Some(LanePatch { tip_id: Some(tip_id), configuration: None, inbox: None }),
            result: ProcedureResult::Settled { outcome: record },
            events,
        },
    )
}

/// Every outcome that fits its task is published: a summary of the branch that a
/// navigation leaves, whether or not its task names a reason, and a compaction that
/// was asked for. A task that was declined or failed ends likewise.
pub proof fn law_outcomes_that_fit_are_published(
    lane: Seq<char>,
    state: LaneRuntimeStateView,
    outcome: StructuralOutcomeView,
    hook_usage_id: Option<Seq<char>>,
    scratch: Seq<AddressView>,
    ended_at: u64,
)
    requires
        state.operation matches Some(operation) && operation.state.task() matches Some(task)
            && match task.boundary {
            ResultBoundaryView::CommitNavigation { .. } => !(outcome is Compaction),
            ResultBoundaryView::Finish => !(outcome is BranchSummary),
            ResultBoundaryView::ResumeCheckpoint { .. } => !(outcome is BranchSummary)
                && task.reason is Some,
        },
    ensures
        ({
            let operation = state.operation->Some_0;
            &&& outcome_command(
                lane,
                operation.meta.operation_id,
                state.tip_id,
                operation.state,
                operation.meta,
                operation.state.task()->Some_0,
                outcome,
                hook_usage_id,
                scratch,
                ended_at,
            ) matches Ok(command)
            &&& settled(lane, state, command) matches LaneCommandView::Commit { next, .. }
            &&& next.operation is None
            &&& next.tip_id == outcome_tip(state.tip_id, outcome)
        }),
{
}

/// Ending a structural task keeps the lane in step with storage.
pub proof fn law_ending_a_structural_task_keeps_step(
    store: Map<AddressView, DurableValueView>,
    lane: Seq<char>,
    state: LaneRuntimeStateView,
    outcome: StructuralOutcomeView,
    hook_usage_id: Option<Seq<char>>,
    scratch: Seq<AddressView>,
    ended_at: u64,
)
    requires
        in_step(store, lane, state),
        state.operation matches Some(operation) && operation.state.task() is Some,
        forall|i: int| 0 <= i < scratch.len() ==> is_scratch(#[trigger] scratch[i]),
    ensures
        ({
            let operation = state.operation->Some_0;
            outcome_command(
                lane,
                operation.meta.operation_id,
                state.tip_id,
                operation.state,
                operation.meta,
                operation.state.task()->Some_0,
                outcome,
                hook_usage_id,
                scratch,
                ended_at,
            ) matches Ok(command) ==> safe_decision(store, lane, state, command) && keeps_step(
                store,
                lane,
                settled(lane, state, command),
            )
        }),
{
    let operation = state.operation->Some_0;
    let operation_id = operation.meta.operation_id;
    let task = operation.state.task()->Some_0;
    if outcome_fault(task, outcome) is None {
        let command = outcome_command(
            lane,
            operation_id,
            state.tip_id,
            operation.state,
            operation.meta,
            task,
            outcome,
            hook_usage_id,
            scratch,
            ended_at,
        )->Ok_0;
        let usage = outcome_usage_writes(outcome, hook_usage_id);
        let moved = outcome_writes(lane, state.tip_id, operation.meta, task, outcome);
        let rest = cleanup(operation_id, operation.state, scratch);
        let tip_address = AddressView::BranchTip { lane };
        let config_address = AddressView::LaneConfig { lane };
        let tip = outcome_tip(state.tip_id, outcome);
        assert(spares(usage, tip_address));
        assert(spares(usage, config_address));
        assert(spares(moved, config_address));
        lemma_spared(store, usage, tip_address);
        lemma_spared(store, usage, config_address);
        let base = committed(store, usage);
        lemma_spared(base, moved, config_address);
        match outcome {
            StructuralOutcomeView::Compaction { result_entry_id, .. } => {
                let head = moved.drop_last();
                assert(moved =~= head.push(tip_write(lane, Some(result_entry_id))));
                lemma_committed_push(base, head, tip_write(lane, Some(result_entry_id)));
            },
            StructuralOutcomeView::BranchSummary { result_entry_id, .. } => {
                let write = tip_write(lane, Some(result_entry_id));
                let through_tip = moved.take(3);
                let labels = moved.skip(3);
                assert(through_tip =~= moved.take(2).push(write));
                lemma_committed_push(base, moved.take(2), write);
                assert(moved =~= through_tip + labels);
                lemma_committed_concat(base, through_tip, labels);
                assert(spares(labels, tip_address));
                lemma_spared(committed(base, through_tip), labels, tip_address);
            },
            _ => {
                assert(moved =~= Seq::empty());
            },
        }
        lemma_committed_concat(store, usage, moved);
        lemma_committed_concat(store, usage + moved, rest);
        lemma_cleanup_spares(operation_id, operation.state, scratch, tip_address);
        lemma_cleanup_spares(operation_id, operation.state, scratch, config_address);
        lemma_spared(committed(store, usage + moved), rest, tip_address);
        lemma_spared(committed(store, usage + moved), rest, config_address);
        law_settling_keeps_step(store, lane, state, command);
    }
}

/// A structural task is attempted again only while attempts are left, and each
/// attempt counts.
pub proof fn law_structural_retries_are_bounded(
    effect: OperationStateView,
    attempt: StructuralAttemptView,
    not_before: u64,
    next: OperationStateView,
)
    requires
        effect is SummaryEffectPending,
        attempt_verdict(effect, attempt, not_before) == AttemptVerdictView::Wait(next),
    ensures
        attempt matches StructuralAttemptView::Error { error, retryable } && retryable,
        (effect matches OperationStateView::SummaryEffectPending {
            attempt: done,
            summary_context,
            ..
        } && (next matches OperationStateView::SummaryRetryWait {
            next_attempt,
            summary_context: kept,
            ..
        } && next_attempt == done + 1 && next_attempt <= summary_context.retry_policy.max_attempts
            && kept == summary_context)),
{
}

/// The leaves that a structural task passes through keep the task, and its lane in
/// step with storage.
pub proof fn law_structural_moves_keep_step<T>(
    store: Map<AddressView, DurableValueView>,
    lane: Seq<char>,
    state: LaneRuntimeStateView,
    next: OperationStateView,
    config: ConfigView,
    default_delay_ms: u64,
    result_entry_id: Seq<char>,
    not_before: u64,
    error_message: Seq<char>,
    result: T,
)
    requires
        in_step(store, lane, state),
        state.operation matches Some(operation) && match operation.state {
            OperationStateView::SummaryDeciding { task, .. } => next
                == (OperationStateView::SummaryReady {
                scope: operation.state.scope(),
                task,
                summary_context: context_of(
                    config,
                    default_delay_ms,
                    result_entry_id,
                    state.configuration,
                ),
                next_attempt: 1,
            }),
            OperationStateView::SummaryReady { .. } => next == pending_of(operation.state),
            OperationStateView::SummaryEffectPending { .. } => next == waiting_of(
                operation.state,
                not_before,
                error_message,
            ),
            OperationStateView::SummaryRetryWait { .. } => next == again(
                operation.state,
                operation.state,
            ),
            _ => false,
        },
    ensures
        next.task() == state.operation->Some_0.state.task(),
        keeps_step(store, lane, settled(lane, state, structural_move(next, result))),
{
    lemma_bare_move_keeps_step(store, lane, state, structural_move(next, result));
}

} // verus!
