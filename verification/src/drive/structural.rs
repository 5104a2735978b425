//! Structural tasks: what they are prepared from, and navigation without one.

use crate::command::{LaneCommandView, OperationCommand, OperationCommandView};
use crate::drive::boundary::{tip_write, write_tip};
use crate::drive::checkpoint::{DueCompaction, DueCompactionView};
use crate::drive::terminal::{
    cleanup, is_scratch, lemma_cleanup_spares, operation_cleanup_writes, operation_result_record,
    result_record,
};
use crate::durable::{
    committed, holds, in_step, lemma_committed_concat, lemma_committed_push, lemma_spared, spares,
};
use crate::lane::settle::{
    keeps_step, lane_state_write, law_settling_keeps_step, safe_decision, settled,
};
use crate::model::event::{HarnessEvent, HarnessEventView, PlannedEvent, PlannedEventView};
use crate::model::message::{AgentMessage, AgentMessageView};
use crate::model::session::{
    CompactionSettings, DurableFileOperations, DurableFileOperationsView, DurableLaneStateView,
    DurableStructuralPreparation, DurableStructuralPreparationView, OperationMeta,
    OperationMetaView, OperationState, OperationStateView, TerminalStatus,
};
use crate::model::storage::{
    Address, AddressView, DurableValue, DurableValueView, Entry, EntryView, Write, WriteView,
};
use crate::text::{same_text, text_in};
use crate::transcript::{append_all, lemma_prefix_push};
use crate::types::{
    LanePatch, LanePatchView, LaneRuntimeStateView, ProcedureResult, ProcedureResultView,
};
use vstd::prelude::*;

verus! {

/// Files touched by a transcript. Each list names a file at most once.
#[derive(Debug, PartialEq, Eq)]
pub struct FileOperations {
    pub read: Vec<String>,
    pub written: Vec<String>,
    pub edited: Vec<String>,
}

/// Contents of [`FileOperations`]: sets of files.
pub struct FileOperationsView {
    pub read: Set<Seq<char>>,
    pub written: Set<Seq<char>>,
    pub edited: Set<Seq<char>>,
}

impl DeepView for FileOperations {
    type V = FileOperationsView;

    open spec fn deep_view(&self) -> FileOperationsView {
        FileOperationsView {
            read: self.read.deep_view().to_set(),
            written: self.written.deep_view().to_set(),
            edited: self.edited.deep_view().to_set(),
        }
    }
}

impl FileOperations {
    /// Whether each list names a file at most once.
    pub open spec fn wf(&self) -> bool {
        &&& self.read.deep_view().no_duplicates()
        &&& self.written.deep_view().no_duplicates()
        &&& self.edited.deep_view().no_duplicates()
    }
}

/// The sets that durable lists name.
pub open spec fn as_sets(file_ops: DurableFileOperationsView) -> FileOperationsView {
    FileOperationsView {
        read: file_ops.read.to_set(),
        written: file_ops.written.to_set(),
        edited: file_ops.edited.to_set(),
    }
}

/// Whether durable lists name each file at most once.
pub open spec fn lists_distinct(file_ops: DurableFileOperationsView) -> bool {
    &&& file_ops.read.no_duplicates()
    &&& file_ops.written.no_duplicates()
    &&& file_ops.edited.no_duplicates()
}

/// Stores file sets as lists.
pub fn durable_file_operations(file_ops: &FileOperations) -> (r: DurableFileOperations)
    requires
        file_ops.wf(),
    ensures
        r.deep_view() == stored_files(*file_ops),
        as_sets(r.deep_view()) == file_ops.deep_view(),
        lists_distinct(r.deep_view()),
{
    DurableFileOperations {
        read: file_ops.read.clone(),
        written: file_ops.written.clone(),
        edited: file_ops.edited.clone(),
    }
}

fn distinct_names(names: &Vec<String>) -> (r: Vec<String>)
    ensures
        r.deep_view().no_duplicates(),
        r.deep_view().to_set() == names.deep_view().to_set(),
        names.deep_view().no_duplicates() ==> r.deep_view() == names.deep_view(),
{
    let mut kept: Vec<String> = Vec::new();
    let mut i: usize = 0;
    assert(kept.deep_view() =~= names.deep_view().take(0));
    while i < names.len()
        invariant
            i <= names.len(),
            kept.deep_view().no_duplicates(),
            kept.deep_view().to_set() == names.deep_view().take(i as int).to_set(),
            names.deep_view().no_duplicates() ==> kept.deep_view() == names.deep_view().take(
                i as int,
            ),
        decreases names.len() - i,
    {
        let ghost before = kept.deep_view();
        let ghost name = names[i as int]@;
        proof {
            lemma_prefix_push(*names, i as int);
            names.deep_view().take(i as int).lemma_push_to_set_commute(name);
            before.lemma_push_to_set_commute(name);
        }
        if !text_in(&kept, &names[i]) {
            kept.push(names[i].clone());
            assert(kept.deep_view() =~= before.push(name));
            proof {
                assert forall|a: int, b: int|
                    0 <= a < b < kept.deep_view().len() implies kept.deep_view()[a]
                    != kept.deep_view()[b] by {
                    if b == before.len() {
                        assert(before.contains(before[a]));
                    }
                }
            }
        } else {
            proof {
                assert(before.to_set().contains(name));
                assert(names.deep_view().take(i as int).to_set().contains(name));
                let at = choose|at: int|
                    0 <= at < names.deep_view().take(i as int).len() && names.deep_view().take(
                        i as int,
                    )[at] == name;
                assert(names.deep_view()[at] == names.deep_view()[i as int]);
                assert(!names.deep_view().no_duplicates());
                assert(before.to_set().insert(name) =~= before.to_set());
            }
        }
        i += 1;
    }
    assert(names.deep_view().take(i as int) =~= names.deep_view());
    kept
}

/// Reads file sets back from lists.
pub fn file_operations(file_ops: &DurableFileOperations) -> (r: FileOperations)
    ensures
        r.wf(),
        r.deep_view() == as_sets(file_ops.deep_view()),
        lists_distinct(file_ops.deep_view()) ==> r.read.deep_view() == file_ops.deep_view().read
            && r.written.deep_view() == file_ops.deep_view().written && r.edited.deep_view()
            == file_ops.deep_view().edited,
{
    FileOperations {
        read: distinct_names(&file_ops.read),
        written: distinct_names(&file_ops.written),
        edited: distinct_names(&file_ops.edited),
    }
}

/// What a compaction is made from.
#[derive(Debug, PartialEq, Eq)]
pub struct CompactionPreparation {
    pub messages_to_summarize: Vec<AgentMessage>,
    pub turn_prefix_messages: Vec<AgentMessage>,
    pub retained_tail: Vec<AgentMessage>,
    pub is_split_turn: bool,
    pub tokens_before: u64,
    pub previous_summary: Option<String>,
    pub file_ops: FileOperations,
    pub settings: CompactionSettings,
}

/// Contents of a [`CompactionPreparation`].
pub struct CompactionPreparationView {
    pub messages_to_summarize: Seq<AgentMessageView>,
    pub turn_prefix_messages: Seq<AgentMessageView>,
    pub retained_tail: Seq<AgentMessageView>,
    pub is_split_turn: bool,
    pub tokens_before: u64,
    pub previous_summary: Option<Seq<char>>,
    pub file_ops: FileOperationsView,
    pub settings: CompactionSettings,
}

impl DeepView for CompactionPreparation {
    type V = CompactionPreparationView;

    open spec fn deep_view(&self) -> CompactionPreparationView {
        CompactionPreparationView {
            messages_to_summarize: self.messages_to_summarize.deep_view(),
            turn_prefix_messages: self.turn_prefix_messages.deep_view(),
            retained_tail: self.retained_tail.deep_view(),
            is_split_turn: self.is_split_turn,
            tokens_before: self.tokens_before,
            previous_summary: self.previous_summary.deep_view(),
            file_ops: self.file_ops.deep_view(),
            settings: self.settings,
        }
    }
}

/// What a branch summary is made from.
#[derive(Debug, PartialEq, Eq)]
pub struct BranchPreparation {
    pub messages: Vec<AgentMessage>,
    pub file_ops: FileOperations,
    pub total_tokens: u64,
}

/// Contents of a [`BranchPreparation`].
pub struct BranchPreparationView {
    pub messages: Seq<AgentMessageView>,
    pub file_ops: FileOperationsView,
    pub total_tokens: u64,
}

impl DeepView for BranchPreparation {
    type V = BranchPreparationView;

    open spec fn deep_view(&self) -> BranchPreparationView {
        BranchPreparationView {
            messages: self.messages.deep_view(),
            file_ops: self.file_ops.deep_view(),
            total_tokens: self.total_tokens,
        }
    }
}

/// The compaction that a durable preparation stands for.
pub open spec fn compaction_of(preparation: DurableStructuralPreparationView) -> Option<
    CompactionPreparationView,
> {
    match preparation {
        DurableStructuralPreparationView::Compaction {
            messages_to_summarize,
            turn_prefix_messages,
            retained_tail,
            is_split_turn,
            tokens_before,
            previous_summary,
            file_ops,
            settings,
        } => Some(
            CompactionPreparationView {
                messages_to_summarize,
                turn_prefix_messages,
                retained_tail,
                is_split_turn,
                tokens_before,
                previous_summary,
                file_ops: as_sets(file_ops),
                settings,
            },
        ),
        _ => None,
    }
}

/// The branch summary that a durable preparation stands for.
pub open spec fn branch_of(preparation: DurableStructuralPreparationView) -> Option<
    BranchPreparationView,
> {
    match preparation {
        DurableStructuralPreparationView::BranchSummary { messages, file_ops, total_tokens } => {
            Some(
                BranchPreparationView { messages, file_ops: as_sets(file_ops), total_tokens },
            )
        },
        _ => None,
    }
}

/// File sets as they are stored.
pub open spec fn stored_files(file_ops: FileOperations) -> DurableFileOperationsView {
    DurableFileOperationsView {
        read: file_ops.read.deep_view(),
        written: file_ops.written.deep_view(),
        edited: file_ops.edited.deep_view(),
    }
}

/// What a compaction is made from, as it is stored.
pub open spec fn stored_compaction(preparation: CompactionPreparation) -> DurableStructuralPreparationView {
    DurableStructuralPreparationView::Compaction {
        messages_to_summarize: preparation.messages_to_summarize.deep_view(),
        turn_prefix_messages: preparation.turn_prefix_messages.deep_view(),
        retained_tail: preparation.retained_tail.deep_view(),
        is_split_turn: preparation.is_split_turn,
        tokens_before: preparation.tokens_before,
        previous_summary: preparation.previous_summary.deep_view(),
        file_ops: stored_files(preparation.file_ops),
        settings: preparation.settings,
    }
}

/// What a branch summary is made from, as it is stored.
pub open spec fn stored_branch(preparation: BranchPreparation) -> DurableStructuralPreparationView {
    DurableStructuralPreparationView::BranchSummary {
        messages: preparation.messages.deep_view(),
        file_ops: stored_files(preparation.file_ops),
        total_tokens: preparation.total_tokens,
    }
}

/// Stores what a compaction is made from.
pub fn durable_compaction_preparation(preparation: &CompactionPreparation) -> (r:
    DurableStructuralPreparation)
    requires
        preparation.file_ops.wf(),
    ensures
        r.deep_view() == stored_compaction(*preparation),
{
    DurableStructuralPreparation::Compaction {
        messages_to_summarize: preparation.messages_to_summarize.clone(),
        turn_prefix_messages: preparation.turn_prefix_messages.clone(),
        retained_tail: preparation.retained_tail.clone(),
        is_split_turn: preparation.is_split_turn,
        tokens_before: preparation.tokens_before,
        previous_summary: preparation.previous_summary.clone(),
        file_ops: durable_file_operations(&preparation.file_ops),
        settings: preparation.settings,
    }
}

/// Stores what a branch summary is made from.
pub fn durable_branch_preparation(preparation: &BranchPreparation) -> (r:
    DurableStructuralPreparation)
    requires
        preparation.file_ops.wf(),
    ensures
        r.deep_view() == stored_branch(*preparation),
{
    DurableStructuralPreparation::BranchSummary {
        messages: preparation.messages.clone(),
        file_ops: durable_file_operations(&preparation.file_ops),
        total_tokens: preparation.total_tokens,
    }
}

/// What is stored of a preparation reads back as the same preparation.
pub proof fn law_preparations_survive_storage(
    compaction: CompactionPreparation,
    branch: BranchPreparation,
)
    ensures
        compaction_of(stored_compaction(compaction)) == Some(compaction.deep_view()),
        branch_of(stored_branch(branch)) == Some(branch.deep_view()),
{
}

/// Reads back what a compaction is made from.
pub fn compaction_preparation(preparation: &DurableStructuralPreparation) -> (r: Option<
    CompactionPreparation,
>)
    ensures
        r.deep_view() == compaction_of(preparation.deep_view()),
        r matches Some(compaction) ==> compaction.file_ops.wf(),
{
    match preparation {
        DurableStructuralPreparation::Compaction {
            messages_to_summarize,
            turn_prefix_messages,
            retained_tail,
            is_split_turn,
            tokens_before,
            previous_summary,
            file_ops,
            settings,
        } => Some(
            CompactionPreparation {
                messages_to_summarize: messages_to_summarize.clone(),
                turn_prefix_messages: turn_prefix_messages.clone(),
                retained_tail: retained_tail.clone(),
                is_split_turn: *is_split_turn,
                tokens_before: *tokens_before,
                previous_summary: previous_summary.clone(),
                file_ops: file_operations(file_ops),
                settings: *settings,
            },
        ),
        _ => None,
    }
}

/// Reads back what a branch summary is made from.
pub fn branch_preparation(preparation: &DurableStructuralPreparation) -> (r: Option<
    BranchPreparation,
>)
    ensures
        r.deep_view() == branch_of(preparation.deep_view()),
        r matches Some(branch) ==> branch.file_ops.wf(),
{
    match preparation {
        DurableStructuralPreparation::BranchSummary { messages, file_ops, total_tokens } => Some(
            BranchPreparation {
                messages: messages.clone(),
                file_ops: file_operations(file_ops),
                total_tokens: *total_tokens,
            },
        ),
        _ => None,
    }
}

/// A durable preparation is of one kind: it is read back as a compaction or as a
/// branch summary, never as both.
pub proof fn law_a_preparation_is_of_one_kind(preparation: DurableStructuralPreparationView)
    ensures
        compaction_of(preparation) is Some <==> branch_of(preparation) is None,
{
}

/// The trigger of a checkpoint.
pub fn checkpoint_trigger(checkpoint: &OperationState) -> (r: String)
    ensures
        r@ == (match checkpoint.deep_view() {
            OperationStateView::Checkpoint { trigger_entry_id, .. } => trigger_entry_id,
            _ => Seq::empty(),
        }),
{
    match checkpoint {
        OperationState::Checkpoint { trigger_entry_id, .. } => trigger_entry_id.clone(),
        _ => String::new(),
    }
}

/// Whether a checkpoint looks for a due compaction at all.
pub fn threshold_applies(checkpoint: &OperationState, model_available: bool) -> (r: bool)
    ensures
        r == (model_available && (checkpoint.deep_view() matches OperationStateView::Checkpoint {
            scope,
            ..
        } && scope.settings.compaction.enabled)),
{
    match checkpoint {
        OperationState::Checkpoint { scope, .. } => model_available
            && scope.settings.compaction.enabled,
        _ => false,
    }
}

/// The place of the first entry with an id.
pub open spec fn place_on_path(entries: Seq<EntryView>, id: Seq<char>) -> Option<int>
    decreases entries.len(),
{
    if entries.len() == 0 {
        None
    } else {
        match place_on_path(entries.drop_last(), id) {
            Some(place) => Some(place),
            None => if entries.last().id() == id {
                Some(entries.len() - 1)
            } else {
                None
            },
        }
    }
}

proof fn lemma_place_stays(entries: Seq<EntryView>, n: int, id: Seq<char>)
    requires
        0 <= n <= entries.len(),
        place_on_path(entries.take(n), id) is Some,
    ensures
        place_on_path(entries, id) == place_on_path(entries.take(n), id),
    decreases entries.len(),
{
    if n < entries.len() {
        assert(entries.drop_last().take(n) =~= entries.take(n));
        lemma_place_stays(entries.drop_last(), n, id);
    } else {
        assert(entries.take(n) =~= entries);
    }
}

/// Finds the first entry with an id.
pub fn find_on_path(entries: &Vec<Entry>, id: &String) -> (r: Option<usize>)
    ensures
        match place_on_path(entries.deep_view(), id@) {
            Some(place) => r is Some && r->Some_0 == place && r->Some_0 < entries.len(),
            None => r is None,
        },
{
    let mut i: usize = 0;
    while i < entries.len()
        invariant
            i <= entries.len(),
            place_on_path(entries.deep_view().take(i as int), id@) is None,
        decreases entries.len() - i,
    {
        proof {
            lemma_prefix_push(*entries, i as int);
        }
        if *entries[i].id() == *id {
            proof {
                lemma_place_stays(entries.deep_view(), i as int + 1, id@);
            }
            return Some(i);
        }
        i += 1;
    }
    assert(entries.deep_view().take(i as int) =~= entries.deep_view());
    None
}

/// The place of the newest compaction on a path.
pub open spec fn newest_compaction(entries: Seq<EntryView>) -> Option<int>
    decreases entries.len(),
{
    if entries.len() == 0 {
        None
    } else if entries.last() is Compaction {
        Some(entries.len() - 1)
    } else {
        newest_compaction(entries.drop_last())
    }
}

fn find_newest_compaction(entries: &Vec<Entry>) -> (r: Option<usize>)
    ensures
        match newest_compaction(entries.deep_view()) {
            Some(place) => r is Some && r->Some_0 == place,
            None => r is None,
        },
{
    let mut n: usize = entries.len();
    assert(entries.deep_view().take(n as int) =~= entries.deep_view());
    while n > 0
        invariant
            n <= entries.len(),
            newest_compaction(entries.deep_view()) == newest_compaction(
                entries.deep_view().take(n as int),
            ),
        decreases n,
    {
        proof {
            lemma_prefix_push(*entries, n as int - 1);
        }
        if let Entry::Compaction(_) = &entries[n - 1] {
            return Some(n - 1);
        }
        n -= 1;
    }
    None
}

/// Whether a path calls for a compaction check: not where a compaction already
/// follows the trigger. A path without its trigger is refused.
pub open spec fn check_due(entries: Seq<EntryView>, trigger: Seq<char>) -> Result<bool, Seq<char>> {
    match (newest_compaction(entries), place_on_path(entries, trigger)) {
        (Some(newest), Some(place)) => Ok(newest < place),
        (Some(_), None) => Ok(false),
        (None, Some(_)) => Ok(true),
        (None, None) => Err("Checkpoint trigger is missing from its Branch"@),
    }
}

/// Tells whether a path calls for a compaction check.
pub fn compaction_check_due(entries: &Vec<Entry>, trigger: &String) -> (r: Result<bool, String>)
    ensures
        match check_due(entries.deep_view(), trigger@) {
            Ok(due) => r == Ok::<bool, String>(due),
            Err(message) => r is Err && r->Err_0@ == message,
        },
{
    match (find_newest_compaction(entries), find_on_path(entries, trigger)) {
        (Some(newest), Some(place)) => Ok(newest < place),
        (Some(_), None) => Ok(false),
        (None, Some(_)) => Ok(true),
        (None, None) => Err("Checkpoint trigger is missing from its Branch".to_string()),
    }
}

/// The compaction that is due: one that could be prepared and that the size of
/// the transcript calls for.
pub fn prepare_compaction_threshold(
    prepared: &Option<CompactionPreparation>,
    should_compact: bool,
    task_id: String,
) -> (r: Option<DueCompaction>)
    requires
        prepared matches Some(preparation) ==> preparation.file_ops.wf(),
    ensures
        r.deep_view() == match *prepared {
            Some(preparation) => if should_compact {
                Some(
                    DueCompactionView {
                        task_id: task_id@,
                        preparation: stored_compaction(preparation),
                    },
                )
            } else {
                None
            },
            None => None,
        },
{
    match prepared {
        Some(preparation) => if should_compact {
            Some(
                DueCompaction { task_id, preparation: durable_compaction_preparation(preparation) },
            )
        } else {
            None
        },
        None => None,
    }
}

/// Whether an overflowing response may be recovered by a compaction.
pub fn overflow_recoverable(generation: &OperationState) -> (r: bool)
    ensures
        r == (generation.deep_view() matches OperationStateView::AssistantEffectPending {
            generation_context,
            ..
        } && !generation_context.overflow_recovery_used),
{
    match generation {
        OperationState::AssistantEffectPending { generation_context, .. } => {
            !generation_context.overflow_recovery_used
        },
        _ => false,
    }
}

/// The compaction that recovers from an overflow, if one could be prepared.
pub fn prepare_overflow_compaction(prepared: &Option<CompactionPreparation>, task_id: String) -> (r:
    Option<DueCompaction>)
    requires
        prepared matches Some(preparation) ==> preparation.file_ops.wf(),
    ensures
        r.deep_view() == match *prepared {
            Some(preparation) => Some(
                DueCompactionView {
                    task_id: task_id@,
                    preparation: stored_compaction(preparation),
                },
            ),
            None => None,
        },
{
    prepare_compaction_threshold(prepared, true, task_id)
}

/// Why a navigation cannot be committed.
pub open spec fn navigation_fault(
    target_id: Option<Seq<char>>,
    label: Option<Seq<char>>,
    target_exists: bool,
    meta: OperationMetaView,
) -> Option<Seq<char>> {
    if target_id is Some && !target_exists {
        Some("Navigation target "@ + target_id->Some_0 + " is missing"@)
    } else if target_id == meta.source_tip_id {
        Some("Navigation target must differ from its source tip"@)
    } else if target_id is None && label is Some {
        Some("Root navigation cannot set a label"@)
    } else {
        None
    }
}

/// The write that labels an entry.
pub open spec fn label_write(entry_id: Seq<char>, label: Seq<char>) -> WriteView {
    WriteView::SetValue {
        address: AddressView::EntryLabel { entry_id },
        value: DurableValueView::Label(label),
    }
}

/// Labels an entry.
pub fn write_label(entry_id: &String, label: &String) -> (r: Write)
    ensures
        r.deep_view() == label_write(entry_id@, label@),
{
    Write::SetValue {
        address: Address::EntryLabel { entry_id: entry_id.clone() },
        value: DurableValue::Label(label.clone()),
    }
}

/// The event that ends a navigation.
pub open spec fn navigation_end(
    lane: Seq<char>,
    operation_id: Seq<char>,
    from_tip_id: Option<Seq<char>>,
    tip_id: Option<Seq<char>>,
    ended_at: u64,
    status: TerminalStatus,
    error: Option<crate::model::session::OperationErrorView>,
) -> PlannedEventView {
    PlannedEventView::Ready(
        HarnessEventView::NavigationEnd {
            lane,
            run_id: operation_id,
            from_tip_id,
            tip_id,
            ended_at,
            status,
            error,
            recovery: None,
        },
    )
}

/// The writes of a navigation without a summary: the tip goes to the target, which
/// gets its label, and the operation is cleaned up.
pub open spec fn navigation_writes(
    lane: Seq<char>,
    operation_id: Seq<char>,
    target_id: Option<Seq<char>>,
    label: Option<Seq<char>>,
    current: OperationStateView,
    scratch: Seq<AddressView>,
) -> Seq<WriteView> {
    let labelled = match (target_id, label) {
        (Some(target), Some(label)) => seq![label_write(target, label)],
        _ => Seq::empty(),
    };
    seq![tip_write(lane, target_id)] + labelled + cleanup(operation_id, current, scratch)
}

/// The commit that carries out a navigation without a summary.
pub open spec fn navigation_command(
    lane: Seq<char>,
    operation_id: Seq<char>,
    target_id: Option<Seq<char>>,
    label: Option<Seq<char>>,
    target_exists: bool,
    current: OperationStateView,
    meta: OperationMetaView,
    scratch: Seq<AddressView>,
    ended_at: u64,
) -> Result<OperationCommandView<ProcedureResultView>, Seq<char>> {
    match navigation_fault(target_id, label, target_exists, meta) {
        Some(message) => Err(message),
        None => {
            let record = result_record(meta, TerminalStatus::Completed, target_id, None, ended_at);
            Ok(
                OperationCommandView::Finish {
                    writes: navigation_writes(
                        lane,
                        operation_id,
                        target_id,
                        label,
                        current,
                        scratch,
                    ),
                    record,
                    lane: Some(
                        LanePatchView { tip_id: Some(target_id), configuration: None, inbox: None },
                    ),
                    result: ProcedureResultView::Settled { outcome: record },
                    events: seq![
                        navigation_end(
                            lane,
                            operation_id,
                            meta.source_tip_id,
                            target_id,
                            ended_at,
                            TerminalStatus::Completed,
                            None,
                        ),
                    ],
                },
            )
        },
    }
}

/// Moves the tip of a lane and ends the navigation, in one commit.
pub fn commit_navigation(
    lane_name: &String,
    operation_id: &String,
    target_id: Option<String>,
    label: Option<String>,
    target_exists: bool,
    current: &OperationState,
    meta: &OperationMeta,
    scratch: Vec<Address>,
    ended_at: u64,
) -> (r: Result<OperationCommand<ProcedureResult>, String>)
    ensures
        match navigation_command(
            lane_name@,
            operation_id@,
            target_id.deep_view(),
            label.deep_view(),
            target_exists,
            current.deep_view(),
            meta.deep_view(),
            scratch.deep_view(),
            ended_at,
        ) {
            Ok(command) => r is Ok && r->Ok_0.deep_view() == command,
            Err(message) => r is Err && r->Err_0@ == message,
        },
{
    if let Some(target) = &target_id {
        if !target_exists {
            let named = crate::text::join("Navigation target ".to_string(), target.as_str());
            return Err(crate::text::join(named, " is missing"));
        }
    }
    if same_text(&target_id, &meta.source_tip_id) {
        return Err("Navigation target must differ from its source tip".to_string());
    }
    if target_id.is_none() && label.is_some() {
        return Err("Root navigation cannot set a label".to_string());
    }
    let mut writes = vec![write_tip(lane_name, target_id.clone())];
    let ghost moved = seq![tip_write(lane_name@, target_id.deep_view())];
    assert(writes.deep_view() =~= moved);
    let ghost mut labelled: Seq<WriteView> = Seq::empty();
    if let (Some(target), Some(label)) = (&target_id, &label) {
        writes.push(write_label(target, label));
        proof {
            labelled = seq![label_write(target@, label@)];
        }
    }
    assert(writes.deep_view() =~= moved + labelled);
    append_all(&mut writes, operation_cleanup_writes(operation_id, current, scratch));
    let record = operation_result_record(
        meta,
        TerminalStatus::Completed,
        target_id.clone(),
        None,
        ended_at,
    );
    let end = PlannedEvent::Ready(
        HarnessEvent::NavigationEnd {
            lane: lane_name.clone(),
            run_id: operation_id.clone(),
            from_tip_id: meta.source_tip_id.clone(),
            tip_id: target_id.clone(),
            ended_at,
            status: TerminalStatus::Completed,
            error: None,
            recovery: None,
        },
    );
    let ghost end_view = end.deep_view();
    let events = vec![end];
    assert(events.deep_view() =~= seq![end_view]);
    Ok(
        OperationCommand::Finish {
            writes,
            record: record.clone(),
            lane: Some(LanePatch { tip_id: Some(target_id), configuration: None, inbox: None }),
            result: ProcedureResult::Settled { outcome: record },
            events,
        },
    )
}

proof fn lemma_navigation_writes(
    store: Map<AddressView, DurableValueView>,
    lane: Seq<char>,
    operation_id: Seq<char>,
    target_id: Option<Seq<char>>,
    label: Option<Seq<char>>,
    current: OperationStateView,
    scratch: Seq<AddressView>,
)
    requires
        forall|i: int| 0 <= i < scratch.len() ==> is_scratch(#[trigger] scratch[i]),
    ensures
        ({
            let tip_address = AddressView::BranchTip { lane };
            let config_address = AddressView::LaneConfig { lane };
            let writes = navigation_writes(lane, operation_id, target_id, label, current, scratch);
            let after = committed(store, writes);
            &&& holds(after, tip_address, DurableValueView::Tip(target_id))
            &&& store.contains_key(config_address) ==> holds(
                after,
                config_address,
                store[config_address],
            )
        }),
{
    let labelled = match (target_id, label) {
        (Some(target), Some(label)) => seq![label_write(target, label)],
        _ => Seq::empty(),
    };
    let moved = seq![tip_write(lane, target_id)];
    let rest = cleanup(operation_id, current, scratch);
    let tip_address = AddressView::BranchTip { lane };
    let config_address = AddressView::LaneConfig { lane };
    assert(moved =~= Seq::empty().push(tip_write(lane, target_id)));
    lemma_committed_push(store, Seq::empty(), tip_write(lane, target_id));
    assert(spares(labelled, tip_address));
    assert(spares(labelled, config_address));
    lemma_committed_concat(store, moved, labelled);
    lemma_spared(committed(store, moved), labelled, tip_address);
    lemma_spared(committed(store, moved), labelled, config_address);
    lemma_committed_concat(store, moved + labelled, rest);
    lemma_cleanup_spares(operation_id, current, scratch, tip_address);
    lemma_cleanup_spares(operation_id, current, scratch, config_address);
    lemma_spared(committed(store, moved + labelled), rest, tip_address);
    lemma_spared(committed(store, moved + labelled), rest, config_address);
}

/// A navigation moves its lane to the target, be it an entry or the root, and ends
/// the operation, in one commit; the record and the one event say the same.
pub proof fn law_a_navigation_moves_the_lane(
    store: Map<AddressView, DurableValueView>,
    lane: Seq<char>,
    state: LaneRuntimeStateView,
    target_id: Option<Seq<char>>,
    label: Option<Seq<char>>,
    target_exists: bool,
    scratch: Seq<AddressView>,
    ended_at: u64,
)
    requires
        state.operation is Some,
        forall|i: int| 0 <= i < scratch.len() ==> is_scratch(#[trigger] scratch[i]),
        navigation_fault(target_id, label, target_exists, state.operation->Some_0.meta) is None,
    ensures
        ({
            let operation = state.operation->Some_0;
            let meta = operation.meta;
            let record = result_record(meta, TerminalStatus::Completed, target_id, None, ended_at);
            &&& navigation_command(
                lane,
                meta.operation_id,
                target_id,
                label,
                target_exists,
                operation.state,
                meta,
                scratch,
                ended_at,
            ) matches Ok(command)
            &&& settled(lane, state, command) matches LaneCommandView::Commit {
                writes,
                next,
                result,
                events,
            }
            &&& next == LaneRuntimeStateView {
                tip_id: target_id,
                operation: None,
                last_operation_id: Some(meta.operation_id),
                ..state
            }
            &&& holds(
                committed(store, writes),
                AddressView::BranchTip { lane },
                DurableValueView::Tip(target_id),
            )
            &&& result == (ProcedureResultView::Settled { outcome: record })
            &&& events == seq![
                navigation_end(
                    lane,
                    meta.operation_id,
                    meta.source_tip_id,
                    target_id,
                    ended_at,
                    TerminalStatus::Completed,
                    None,
                ),
            ]
        }),
{
    let operation = state.operation->Some_0;
    let operation_id = operation.meta.operation_id;
    let record = result_record(
        operation.meta,
        TerminalStatus::Completed,
        target_id,
        None,
        ended_at,
    );
    let writes = navigation_writes(
        lane,
        operation_id,
        target_id,
        label,
        operation.state,
        scratch,
    );
    lemma_navigation_writes(
        store,
        lane,
        operation_id,
        target_id,
        label,
        operation.state,
        scratch,
    );
    let outcome_write = WriteView::SetValue {
        address: AddressView::OperationResult { operation_id },
        value: DurableValueView::Outcome(record),
    };
    lemma_committed_push(store, writes, outcome_write);
    lemma_committed_push(
        store,
        writes.push(outcome_write),
        lane_state_write(
            lane,
            DurableLaneStateView {
                current_operation_id: None,
                last_operation_id: Some(operation_id),
                inbox: state.inbox,
            },
        ),
    );
}

/// A navigation keeps the lane in step with storage: both end up at the target.
pub proof fn law_navigation_keeps_step(
    store: Map<AddressView, DurableValueView>,
    lane: Seq<char>,
    state: LaneRuntimeStateView,
    target_id: Option<Seq<char>>,
    label: Option<Seq<char>>,
    target_exists: bool,
    scratch: Seq<AddressView>,
    ended_at: u64,
)
    requires
        in_step(store, lane, state),
        state.operation is Some,
        forall|i: int| 0 <= i < scratch.len() ==> is_scratch(#[trigger] scratch[i]),
    ensures
        ({
            let operation = state.operation->Some_0;
            navigation_command(
                lane,
                operation.meta.operation_id,
                target_id,
                label,
                target_exists,
                operation.state,
                operation.meta,
                scratch,
                ended_at,
            ) matches Ok(command) ==> safe_decision(store, lane, state, command) && keeps_step(
                store,
                lane,
                settled(lane, state, command),
            )
        }),
{
    let operation = state.operation->Some_0;
    let operation_id = operation.meta.operation_id;
    if navigation_fault(target_id, label, target_exists, operation.meta) is None {
        lemma_navigation_writes(
            store,
            lane,
            operation_id,
            target_id,
            label,
            operation.state,
            scratch,
        );
        let command = navigation_command(
            lane,
            operation_id,
            target_id,
            label,
            target_exists,
            operation.state,
            operation.meta,
            scratch,
            ended_at,
        )->Ok_0;
        law_settling_keeps_step(store, lane, state, command);
    }
}

} // verus!
