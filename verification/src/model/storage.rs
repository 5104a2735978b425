//! Entries of a transcript and the writes that change durable storage.

use crate::json::Json;
use crate::model::message::{
    AgentMessage, AgentMessageView, AgentToolResult, AgentToolResultView, Usage, UsageView,
};
use crate::model::session::{
    DurableLaneState, DurableLaneStateView, DurableStructuralPreparation,
    DurableStructuralPreparationView, LaneConfiguration, LaneConfigurationView, OperationMeta,
    OperationMetaView, OperationResultRecord, OperationResultRecordView, OperationState,
    OperationStateView, PendingEntry, PendingEntryView,
};
use vstd::prelude::*;

verus! {

/// What every committed entry has.
#[derive(Debug, PartialEq, Eq)]
pub struct EntryBase {
    pub id: String,
    pub parent_id: Option<String>,
    pub seq: u64,
    pub timestamp: u64,
    pub custom_type: Option<String>,
}

/// Contents of an [`EntryBase`].
pub struct EntryBaseView {
    pub id: Seq<char>,
    pub parent_id: Option<Seq<char>>,
    pub seq: u64,
    pub timestamp: u64,
    pub custom_type: Option<Seq<char>>,
}

impl DeepView for EntryBase {
    type V = EntryBaseView;

    open spec fn deep_view(&self) -> EntryBaseView {
        EntryBaseView {
            id: self.id.deep_view(),
            parent_id: self.parent_id.deep_view(),
            seq: self.seq.deep_view(),
            timestamp: self.timestamp.deep_view(),
            custom_type: self.custom_type.deep_view(),
        }
    }
}

impl Clone for EntryBase {
    fn clone(&self) -> (r: Self)
        ensures
            r.deep_view() == self.deep_view(),
    {
        EntryBase {
            id: self.id.clone(),
            parent_id: self.parent_id.clone(),
            seq: self.seq,
            timestamp: self.timestamp,
            custom_type: self.custom_type.clone(),
        }
    }
}

/// Details of a summary entry.
#[derive(Debug, PartialEq, Eq)]
pub enum SummaryDetails {
    Files {
        read_files: Vec<String>,
        modified_files: Vec<String>,
    },
    Other(Json),
}

/// Contents of [`SummaryDetails`].
pub enum SummaryDetailsView {
    Files {
        read_files: Seq<Seq<char>>,
        modified_files: Seq<Seq<char>>,
    },
    Other(serde_json::Value),
}

impl DeepView for SummaryDetails {
    type V = SummaryDetailsView;

    open spec fn deep_view(&self) -> SummaryDetailsView {
        match self {
            SummaryDetails::Files { read_files, modified_files } => SummaryDetailsView::Files {
                read_files: read_files.deep_view(),
                modified_files: modified_files.deep_view(),
            },
            SummaryDetails::Other(item) => SummaryDetailsView::Other(item.deep_view()),
        }
    }
}

impl Clone for SummaryDetails {
    fn clone(&self) -> (r: Self)
        ensures
            r.deep_view() == self.deep_view(),
    {
        match self {
            SummaryDetails::Files { read_files, modified_files } => SummaryDetails::Files {
                read_files: read_files.clone(),
                modified_files: modified_files.clone(),
            },
            SummaryDetails::Other(item) => SummaryDetails::Other(item.clone()),
        }
    }
}

/// A committed message.
#[derive(Debug, PartialEq, Eq)]
pub struct MessageEntry {
    pub base: EntryBase,
    pub message: AgentMessage,
    pub terminate: Option<bool>,
}

/// Contents of a [`MessageEntry`].
pub struct MessageEntryView {
    pub base: EntryBaseView,
    pub message: AgentMessageView,
    pub terminate: Option<bool>,
}

impl DeepView for MessageEntry {
    type V = MessageEntryView;

    open spec fn deep_view(&self) -> MessageEntryView {
        MessageEntryView {
            base: self.base.deep_view(),
            message: self.message.deep_view(),
            terminate: self.terminate.deep_view(),
        }
    }
}

impl Clone for MessageEntry {
    fn clone(&self) -> (r: Self)
        ensures
            r.deep_view() == self.deep_view(),
    {
        MessageEntry {
            base: self.base.clone(),
            message: self.message.clone(),
            terminate: self.terminate,
        }
    }
}

/// A committed compaction.
#[derive(Debug, PartialEq, Eq)]
pub struct CompactionEntry {
    pub base: EntryBase,
    pub summary: String,
    pub retained_tail: Vec<AgentMessage>,
    pub tokens_before: u64,
    pub details: Option<SummaryDetails>,
    pub usage: Option<Usage>,
    pub from_hook: bool,
}

/// Contents of a [`CompactionEntry`].
pub struct CompactionEntryView {
    pub base: EntryBaseView,
    pub summary: Seq<char>,
    pub retained_tail: Seq<AgentMessageView>,
    pub tokens_before: u64,
    pub details: Option<SummaryDetailsView>,
    pub usage: Option<UsageView>,
    pub from_hook: bool,
}

impl DeepView for CompactionEntry {
    type V = CompactionEntryView;

    open spec fn deep_view(&self) -> CompactionEntryView {
        CompactionEntryView {
            base: self.base.deep_view(),
            summary: self.summary.deep_view(),
            retained_tail: self.retained_tail.deep_view(),
            tokens_before: self.tokens_before.deep_view(),
            details: self.details.deep_view(),
            usage: self.usage.deep_view(),
            from_hook: self.from_hook.deep_view(),
        }
    }
}

impl Clone for CompactionEntry {
    fn clone(&self) -> (r: Self)
        ensures
            r.deep_view() == self.deep_view(),
    {
        CompactionEntry {
            base: self.base.clone(),
            summary: self.summary.clone(),
            retained_tail: self.retained_tail.clone(),
            tokens_before: self.tokens_before,
            details: self.details.clone(),
            usage: self.usage.clone(),
            from_hook: self.from_hook,
        }
    }
}

/// A committed branch summary.
#[derive(Debug, PartialEq, Eq)]
pub struct BranchSummaryEntry {
    pub base: EntryBase,
    pub from_id: Option<String>,
    pub summary: String,
    pub details: Option<SummaryDetails>,
    pub usage: Option<Usage>,
    pub from_hook: bool,
}

/// Contents of a [`BranchSummaryEntry`].
pub struct BranchSummaryEntryView {
    pub base: EntryBaseView,
    pub from_id: Option<Seq<char>>,
    pub summary: Seq<char>,
    pub details: Option<SummaryDetailsView>,
    pub usage: Option<UsageView>,
    pub from_hook: bool,
}

impl DeepView for BranchSummaryEntry {
    type V = BranchSummaryEntryView;

    open spec fn deep_view(&self) -> BranchSummaryEntryView {
        BranchSummaryEntryView {
            base: self.base.deep_view(),
            from_id: self.from_id.deep_view(),
            summary: self.summary.deep_view(),
            details: self.details.deep_view(),
            usage: self.usage.deep_view(),
            from_hook: self.from_hook.deep_view(),
        }
    }
}

impl Clone for BranchSummaryEntry {
    fn clone(&self) -> (r: Self)
        ensures
            r.deep_view() == self.deep_view(),
    {
        BranchSummaryEntry {
            base: self.base.clone(),
            from_id: self.from_id.clone(),
            summary: self.summary.clone(),
            details: self.details.clone(),
            usage: self.usage.clone(),
            from_hook: self.from_hook,
        }
    }
}

/// A committed custom entry.
#[derive(Debug, PartialEq, Eq)]
pub struct CustomEntry {
    pub base: EntryBase,
    pub data: Option<Json>,
}

/// Contents of a [`CustomEntry`].
pub struct CustomEntryView {
    pub base: EntryBaseView,
    pub data: Option<serde_json::Value>,
}

impl DeepView for CustomEntry {
    type V = CustomEntryView;

    open spec fn deep_view(&self) -> CustomEntryView {
        CustomEntryView {
            base: self.base.deep_view(),
            data: self.data.deep_view(),
        }
    }
}

impl Clone for CustomEntry {
    fn clone(&self) -> (r: Self)
        ensures
            r.deep_view() == self.deep_view(),
    {
        CustomEntry {
            base: self.base.clone(),
            data: self.data.clone(),
        }
    }
}

/// A committed entry of a transcript.
#[allow(inconsistent_fields)]
#[derive(Debug, PartialEq, Eq)]
pub enum Entry {
    Message(MessageEntry),
    Compaction(CompactionEntry),
    BranchSummary(BranchSummaryEntry),
    Custom(CustomEntry),
}

/// Contents of [`Entry`].
#[allow(inconsistent_fields)]
pub enum EntryView {
    Message(MessageEntryView),
    Compaction(CompactionEntryView),
    BranchSummary(BranchSummaryEntryView),
    Custom(CustomEntryView),
}

impl DeepView for Entry {
    type V = EntryView;

    open spec fn deep_view(&self) -> EntryView {
        match self {
            Entry::Message(item) => EntryView::Message(item.deep_view()),
            Entry::Compaction(item) => EntryView::Compaction(item.deep_view()),
            Entry::BranchSummary(item) => EntryView::BranchSummary(item.deep_view()),
            Entry::Custom(item) => EntryView::Custom(item.deep_view()),
        }
    }
}

impl Clone for Entry {
    fn clone(&self) -> (r: Self)
        ensures
            r.deep_view() == self.deep_view(),
    {
        match self {
            Entry::Message(item) => Entry::Message(item.clone()),
            Entry::Compaction(item) => Entry::Compaction(item.clone()),
            Entry::BranchSummary(item) => Entry::BranchSummary(item.clone()),
            Entry::Custom(item) => Entry::Custom(item.clone()),
        }
    }
}

/// A message to insert.
#[derive(Debug, PartialEq, Eq)]
pub struct NewMessageEntry {
    pub id: String,
    pub parent_id: Option<String>,
    pub custom_type: Option<String>,
    pub message: AgentMessage,
    pub terminate: Option<bool>,
}

/// Contents of a [`NewMessageEntry`].
pub struct NewMessageEntryView {
    pub id: Seq<char>,
    pub parent_id: Option<Seq<char>>,
    pub custom_type: Option<Seq<char>>,
    pub message: AgentMessageView,
    pub terminate: Option<bool>,
}

impl DeepView for NewMessageEntry {
    type V = NewMessageEntryView;

    open spec fn deep_view(&self) -> NewMessageEntryView {
        NewMessageEntryView {
            id: self.id.deep_view(),
            parent_id: self.parent_id.deep_view(),
            custom_type: self.custom_type.deep_view(),
            message: self.message.deep_view(),
            terminate: self.terminate.deep_view(),
        }
    }
}

impl Clone for NewMessageEntry {
    fn clone(&self) -> (r: Self)
        ensures
            r.deep_view() == self.deep_view(),
    {
        NewMessageEntry {
            id: self.id.clone(),
            parent_id: self.parent_id.clone(),
            custom_type: self.custom_type.clone(),
            message: self.message.clone(),
            terminate: self.terminate,
        }
    }
}

/// A compaction to insert.
#[derive(Debug, PartialEq, Eq)]
pub struct NewCompactionEntry {
    pub id: String,
    pub parent_id: Option<String>,
    pub custom_type: Option<String>,
    pub summary: String,
    pub retained_tail: Vec<AgentMessage>,
    pub tokens_before: u64,
    pub details: Option<SummaryDetails>,
    pub usage: Option<Usage>,
    pub from_hook: bool,
}

/// Contents of a [`NewCompactionEntry`].
pub struct NewCompactionEntryView {
    pub id: Seq<char>,
    pub parent_id: Option<Seq<char>>,
    pub custom_type: Option<Seq<char>>,
    pub summary: Seq<char>,
    pub retained_tail: Seq<AgentMessageView>,
    pub tokens_before: u64,
    pub details: Option<SummaryDetailsView>,
    pub usage: Option<UsageView>,
    pub from_hook: bool,
}

impl DeepView for NewCompactionEntry {
    type V = NewCompactionEntryView;

    open spec fn deep_view(&self) -> NewCompactionEntryView {
        NewCompactionEntryView {
            id: self.id.deep_view(),
            parent_id: self.parent_id.deep_view(),
            custom_type: self.custom_type.deep_view(),
            summary: self.summary.deep_view(),
            retained_tail: self.retained_tail.deep_view(),
            tokens_before: self.tokens_before.deep_view(),
            details: self.details.deep_view(),
            usage: self.usage.deep_view(),
            from_hook: self.from_hook.deep_view(),
        }
    }
}

impl Clone for NewCompactionEntry {
    fn clone(&self) -> (r: Self)
        ensures
            r.deep_view() == self.deep_view(),
    {
        NewCompactionEntry {
            id: self.id.clone(),
            parent_id: self.parent_id.clone(),
            custom_type: self.custom_type.clone(),
            summary: self.summary.clone(),
            retained_tail: self.retained_tail.clone(),
            tokens_before: self.tokens_before,
            details: self.details.clone(),
            usage: self.usage.clone(),
            from_hook: self.from_hook,
        }
    }
}

/// A branch summary to insert.
#[derive(Debug, PartialEq, Eq)]
pub struct NewBranchSummaryEntry {
    pub id: String,
    pub parent_id: Option<String>,
    pub custom_type: Option<String>,
    pub from_id: Option<String>,
    pub summary: String,
    pub details: Option<SummaryDetails>,
    pub usage: Option<Usage>,
    pub from_hook: bool,
}

/// Contents of a [`NewBranchSummaryEntry`].
pub struct NewBranchSummaryEntryView {
    pub id: Seq<char>,
    pub parent_id: Option<Seq<char>>,
    pub custom_type: Option<Seq<char>>,
    pub from_id: Option<Seq<char>>,
    pub summary: Seq<char>,
    pub details: Option<SummaryDetailsView>,
    pub usage: Option<UsageView>,
    pub from_hook: bool,
}

impl DeepView for NewBranchSummaryEntry {
    type V = NewBranchSummaryEntryView;

    open spec fn deep_view(&self) -> NewBranchSummaryEntryView {
        NewBranchSummaryEntryView {
            id: self.id.deep_view(),
            parent_id: self.parent_id.deep_view(),
            custom_type: self.custom_type.deep_view(),
            from_id: self.from_id.deep_view(),
            summary: self.summary.deep_view(),
            details: self.details.deep_view(),
            usage: self.usage.deep_view(),
            from_hook: self.from_hook.deep_view(),
        }
    }
}

impl Clone for NewBranchSummaryEntry {
    fn clone(&self) -> (r: Self)
        ensures
            r.deep_view() == self.deep_view(),
    {
        NewBranchSummaryEntry {
            id: self.id.clone(),
            parent_id: self.parent_id.clone(),
            custom_type: self.custom_type.clone(),
            from_id: self.from_id.clone(),
            summary: self.summary.clone(),
            details: self.details.clone(),
            usage: self.usage.clone(),
            from_hook: self.from_hook,
        }
    }
}

/// A custom entry to insert.
#[derive(Debug, PartialEq, Eq)]
pub struct NewCustomEntry {
    pub id: String,
    pub parent_id: Option<String>,
    pub custom_type: String,
    pub data: Option<Json>,
}

/// Contents of a [`NewCustomEntry`].
pub struct NewCustomEntryView {
    pub id: Seq<char>,
    pub parent_id: Option<Seq<char>>,
    pub custom_type: Seq<char>,
    pub data: Option<serde_json::Value>,
}

impl DeepView for NewCustomEntry {
    type V = NewCustomEntryView;

    open spec fn deep_view(&self) -> NewCustomEntryView {
        NewCustomEntryView {
            id: self.id.deep_view(),
            parent_id: self.parent_id.deep_view(),
            custom_type: self.custom_type.deep_view(),
            data: self.data.deep_view(),
        }
    }
}

impl Clone for NewCustomEntry {
    fn clone(&self) -> (r: Self)
        ensures
            r.deep_view() == self.deep_view(),
    {
        NewCustomEntry {
            id: self.id.clone(),
            parent_id: self.parent_id.clone(),
            custom_type: self.custom_type.clone(),
            data: self.data.clone(),
        }
    }
}

/// An entry to insert.
#[allow(inconsistent_fields)]
#[derive(Debug, PartialEq, Eq)]
pub enum NewEntry {
    Message(NewMessageEntry),
    Compaction(NewCompactionEntry),
    BranchSummary(NewBranchSummaryEntry),
    Custom(NewCustomEntry),
}

/// Contents of [`NewEntry`].
#[allow(inconsistent_fields)]
pub enum NewEntryView {
    Message(NewMessageEntryView),
    Compaction(NewCompactionEntryView),
    BranchSummary(NewBranchSummaryEntryView),
    Custom(NewCustomEntryView),
}

impl DeepView for NewEntry {
    type V = NewEntryView;

    open spec fn deep_view(&self) -> NewEntryView {
        match self {
            NewEntry::Message(item) => NewEntryView::Message(item.deep_view()),
            NewEntry::Compaction(item) => NewEntryView::Compaction(item.deep_view()),
            NewEntry::BranchSummary(item) => NewEntryView::BranchSummary(item.deep_view()),
            NewEntry::Custom(item) => NewEntryView::Custom(item.deep_view()),
        }
    }
}

impl Clone for NewEntry {
    fn clone(&self) -> (r: Self)
        ensures
            r.deep_view() == self.deep_view(),
    {
        match self {
            NewEntry::Message(item) => NewEntry::Message(item.clone()),
            NewEntry::Compaction(item) => NewEntry::Compaction(item.clone()),
            NewEntry::BranchSummary(item) => NewEntry::BranchSummary(item.clone()),
            NewEntry::Custom(item) => NewEntry::Custom(item.clone()),
        }
    }
}

/// One row of the usage ledger.
#[derive(Debug, PartialEq, Eq)]
pub struct UsageRow {
    pub id: String,
    pub seq: u64,
    pub usage: Usage,
    pub entry_id: Option<String>,
    pub adjustment: bool,
    pub details: Option<Json>,
}

/// Contents of a [`UsageRow`].
pub struct UsageRowView {
    pub id: Seq<char>,
    pub seq: u64,
    pub usage: UsageView,
    pub entry_id: Option<Seq<char>>,
    pub adjustment: bool,
    pub details: Option<serde_json::Value>,
}

impl DeepView for UsageRow {
    type V = UsageRowView;

    open spec fn deep_view(&self) -> UsageRowView {
        UsageRowView {
            id: self.id.deep_view(),
            seq: self.seq.deep_view(),
            usage: self.usage.deep_view(),
            entry_id: self.entry_id.deep_view(),
            adjustment: self.adjustment.deep_view(),
            details: self.details.deep_view(),
        }
    }
}

impl Clone for UsageRow {
    fn clone(&self) -> (r: Self)
        ensures
            r.deep_view() == self.deep_view(),
    {
        UsageRow {
            id: self.id.clone(),
            seq: self.seq,
            usage: self.usage.clone(),
            entry_id: self.entry_id.clone(),
            adjustment: self.adjustment,
            details: self.details.clone(),
        }
    }
}

/// Where a durable value lives.
#[derive(Debug, PartialEq, Eq)]
pub enum Address {
    BranchTip {
        lane: String,
    },
    LaneConfig {
        lane: String,
    },
    LaneState {
        lane: String,
    },
    OperationMeta {
        operation_id: String,
    },
    OperationState {
        operation_id: String,
    },
    OperationResult {
        operation_id: String,
    },
    OperationPreparation {
        operation_id: String,
        task_id: String,
    },
    OperationToolArgs {
        operation_id: String,
        turn_id: String,
        source_index: usize,
    },
    OperationToolMemo {
        operation_id: String,
        result_entry_id: String,
        name: String,
    },
    PendingEntry {
        entry_id: String,
    },
    PendingToolOutput {
        operation_id: String,
        result_entry_id: String,
    },
    PendingAssistantFrames {
        operation_id: String,
        response_entry_id: String,
    },
    EntryLabel {
        entry_id: String,
    },
}

/// Contents of [`Address`].
pub enum AddressView {
    BranchTip {
        lane: Seq<char>,
    },
    LaneConfig {
        lane: Seq<char>,
    },
    LaneState {
        lane: Seq<char>,
    },
    OperationMeta {
        operation_id: Seq<char>,
    },
    OperationState {
        operation_id: Seq<char>,
    },
    OperationResult {
        operation_id: Seq<char>,
    },
    OperationPreparation {
        operation_id: Seq<char>,
        task_id: Seq<char>,
    },
    OperationToolArgs {
        operation_id: Seq<char>,
        turn_id: Seq<char>,
        source_index: usize,
    },
    OperationToolMemo {
        operation_id: Seq<char>,
        result_entry_id: Seq<char>,
        name: Seq<char>,
    },
    PendingEntry {
        entry_id: Seq<char>,
    },
    PendingToolOutput {
        operation_id: Seq<char>,
        result_entry_id: Seq<char>,
    },
    PendingAssistantFrames {
        operation_id: Seq<char>,
        response_entry_id: Seq<char>,
    },
    EntryLabel {
        entry_id: Seq<char>,
    },
}

impl DeepView for Address {
    type V = AddressView;

    open spec fn deep_view(&self) -> AddressView {
        match self {
            Address::BranchTip { lane } => AddressView::BranchTip {
                lane: lane.deep_view(),
            },
            Address::LaneConfig { lane } => AddressView::LaneConfig {
                lane: lane.deep_view(),
            },
            Address::LaneState { lane } => AddressView::LaneState {
                lane: lane.deep_view(),
            },
            Address::OperationMeta { operation_id } => AddressView::OperationMeta {
                operation_id: operation_id.deep_view(),
            },
            Address::OperationState { operation_id } => AddressView::OperationState {
                operation_id: operation_id.deep_view(),
            },
            Address::OperationResult { operation_id } => AddressView::OperationResult {
                operation_id: operation_id.deep_view(),
            },
            Address::OperationPreparation {
                operation_id,
                task_id,
            } => AddressView::OperationPreparation {
                operation_id: operation_id.deep_view(),
                task_id: task_id.deep_view(),
            },
            Address::OperationToolArgs {
                operation_id,
                turn_id,
                source_index,
            } => AddressView::OperationToolArgs {
                operation_id: operation_id.deep_view(),
                turn_id: turn_id.deep_view(),
                source_index: source_index.deep_view(),
            },
            Address::OperationToolMemo {
                operation_id,
                result_entry_id,
                name,
            } => AddressView::OperationToolMemo {
                operation_id: operation_id.deep_view(),
                result_entry_id: result_entry_id.deep_view(),
                name: name.deep_view(),
            },
            Address::PendingEntry { entry_id } => AddressView::PendingEntry {
                entry_id: entry_id.deep_view(),
            },
            Address::PendingToolOutput {
                operation_id,
                result_entry_id,
            } => AddressView::PendingToolOutput {
                operation_id: operation_id.deep_view(),
                result_entry_id: result_entry_id.deep_view(),
            },
            Address::PendingAssistantFrames {
                operation_id,
                response_entry_id,
            } => AddressView::PendingAssistantFrames {
                operation_id: operation_id.deep_view(),
                response_entry_id: response_entry_id.deep_view(),
            },
            Address::EntryLabel { entry_id } => AddressView::EntryLabel {
                entry_id: entry_id.deep_view(),
            },
        }
    }
}

impl Clone for Address {
    fn clone(&self) -> (r: Self)
        ensures
            r.deep_view() == self.deep_view(),
    {
        match self {
            Address::BranchTip { lane } => Address::BranchTip {
                lane: lane.clone(),
            },
            Address::LaneConfig { lane } => Address::LaneConfig {
                lane: lane.clone(),
            },
            Address::LaneState { lane } => Address::LaneState {
                lane: lane.clone(),
            },
            Address::OperationMeta { operation_id } => Address::OperationMeta {
                operation_id: operation_id.clone(),
            },
            Address::OperationState { operation_id } => Address::OperationState {
                operation_id: operation_id.clone(),
            },
            Address::OperationResult { operation_id } => Address::OperationResult {
                operation_id: operation_id.clone(),
            },
            Address::OperationPreparation {
                operation_id,
                task_id,
            } => Address::OperationPreparation {
                operation_id: operation_id.clone(),
                task_id: task_id.clone(),
            },
            Address::OperationToolArgs {
                operation_id,
                turn_id,
                source_index,
            } => Address::OperationToolArgs {
                operation_id: operation_id.clone(),
                turn_id: turn_id.clone(),
                source_index: *source_index,
            },
            Address::OperationToolMemo {
                operation_id,
                result_entry_id,
                name,
            } => Address::OperationToolMemo {
                operation_id: operation_id.clone(),
                result_entry_id: result_entry_id.clone(),
                name: name.clone(),
            },
            Address::PendingEntry { entry_id } => Address::PendingEntry {
                entry_id: entry_id.clone(),
            },
            Address::PendingToolOutput {
                operation_id,
                result_entry_id,
            } => Address::PendingToolOutput {
                operation_id: operation_id.clone(),
                result_entry_id: result_entry_id.clone(),
            },
            Address::PendingAssistantFrames {
                operation_id,
                response_entry_id,
            } => Address::PendingAssistantFrames {
                operation_id: operation_id.clone(),
                response_entry_id: response_entry_id.clone(),
            },
            Address::EntryLabel { entry_id } => Address::EntryLabel {
                entry_id: entry_id.clone(),
            },
        }
    }
}

/// A value of durable storage.
#[allow(inconsistent_fields)]
#[derive(Debug, PartialEq, Eq)]
pub enum DurableValue {
    Tip(Option<String>),
    Configuration(LaneConfiguration),
    Lane(DurableLaneState),
    Meta(OperationMeta),
    State(OperationState),
    Outcome(OperationResultRecord),
    Preparation(DurableStructuralPreparation),
    Pending(PendingEntry),
    ToolArguments(Json),
    ToolOutput(AgentToolResult),
    Memo(Json),
    Label(String),
}

/// Contents of [`DurableValue`].
#[allow(inconsistent_fields)]
pub enum DurableValueView {
    Tip(Option<Seq<char>>),
    Configuration(LaneConfigurationView),
    Lane(DurableLaneStateView),
    Meta(OperationMetaView),
    State(OperationStateView),
    Outcome(OperationResultRecordView),
    Preparation(DurableStructuralPreparationView),
    Pending(PendingEntryView),
    ToolArguments(serde_json::Value),
    ToolOutput(AgentToolResultView),
    Memo(serde_json::Value),
    Label(Seq<char>),
}

impl DeepView for DurableValue {
    type V = DurableValueView;

    open spec fn deep_view(&self) -> DurableValueView {
        match self {
            DurableValue::Tip(item) => DurableValueView::Tip(item.deep_view()),
            DurableValue::Configuration(item) => DurableValueView::Configuration(item.deep_view()),
            DurableValue::Lane(item) => DurableValueView::Lane(item.deep_view()),
            DurableValue::Meta(item) => DurableValueView::Meta(item.deep_view()),
            DurableValue::State(item) => DurableValueView::State(item.deep_view()),
            DurableValue::Outcome(item) => DurableValueView::Outcome(item.deep_view()),
            DurableValue::Preparation(item) => DurableValueView::Preparation(item.deep_view()),
            DurableValue::Pending(item) => DurableValueView::Pending(item.deep_view()),
            DurableValue::ToolArguments(item) => DurableValueView::ToolArguments(item.deep_view()),
            DurableValue::ToolOutput(item) => DurableValueView::ToolOutput(item.deep_view()),
            DurableValue::Memo(item) => DurableValueView::Memo(item.deep_view()),
            DurableValue::Label(item) => DurableValueView::Label(item.deep_view()),
        }
    }
}

impl Clone for DurableValue {
    fn clone(&self) -> (r: Self)
        ensures
            r.deep_view() == self.deep_view(),
    {
        match self {
            DurableValue::Tip(item) => DurableValue::Tip(item.clone()),
            DurableValue::Configuration(item) => DurableValue::Configuration(item.clone()),
            DurableValue::Lane(item) => DurableValue::Lane(item.clone()),
            DurableValue::Meta(item) => DurableValue::Meta(item.clone()),
            DurableValue::State(item) => DurableValue::State(item.clone()),
            DurableValue::Outcome(item) => DurableValue::Outcome(item.clone()),
            DurableValue::Preparation(item) => DurableValue::Preparation(item.clone()),
            DurableValue::Pending(item) => DurableValue::Pending(item.clone()),
            DurableValue::ToolArguments(item) => DurableValue::ToolArguments(item.clone()),
            DurableValue::ToolOutput(item) => DurableValue::ToolOutput(item.clone()),
            DurableValue::Memo(item) => DurableValue::Memo(item.clone()),
            DurableValue::Label(item) => DurableValue::Label(item.clone()),
        }
    }
}

/// One change of durable storage.
#[allow(inconsistent_fields)]
#[derive(Debug, PartialEq, Eq)]
pub enum Write {
    InsertEntry(NewEntry),
    InsertUsage(UsageRow),
    SetValue {
        address: Address,
        value: DurableValue,
    },
    DeleteValue {
        address: Address,
    },
    AppendList {
        address: Address,
        value: Json,
    },
    DeleteList {
        address: Address,
    },
}

/// Contents of [`Write`].
#[allow(inconsistent_fields)]
pub enum WriteView {
    InsertEntry(NewEntryView),
    InsertUsage(UsageRowView),
    SetValue {
        address: AddressView,
        value: DurableValueView,
    },
    DeleteValue {
        address: AddressView,
    },
    AppendList {
        address: AddressView,
        value: serde_json::Value,
    },
    DeleteList {
        address: AddressView,
    },
}

impl DeepView for Write {
    type V = WriteView;

    open spec fn deep_view(&self) -> WriteView {
        match self {
            Write::InsertEntry(item) => WriteView::InsertEntry(item.deep_view()),
            Write::InsertUsage(item) => WriteView::InsertUsage(item.deep_view()),
            Write::SetValue { address, value } => WriteView::SetValue {
                address: address.deep_view(),
                value: value.deep_view(),
            },
            Write::DeleteValue { address } => WriteView::DeleteValue {
                address: address.deep_view(),
            },
            Write::AppendList { address, value } => WriteView::AppendList {
                address: address.deep_view(),
                value: value.deep_view(),
            },
            Write::DeleteList { address } => WriteView::DeleteList {
                address: address.deep_view(),
            },
        }
    }
}

impl Clone for Write {
    fn clone(&self) -> (r: Self)
        ensures
            r.deep_view() == self.deep_view(),
    {
        match self {
            Write::InsertEntry(item) => Write::InsertEntry(item.clone()),
            Write::InsertUsage(item) => Write::InsertUsage(item.clone()),
            Write::SetValue { address, value } => Write::SetValue {
                address: address.clone(),
                value: value.clone(),
            },
            Write::DeleteValue { address } => Write::DeleteValue {
                address: address.clone(),
            },
            Write::AppendList { address, value } => Write::AppendList {
                address: address.clone(),
                value: value.clone(),
            },
            Write::DeleteList { address } => Write::DeleteList {
                address: address.clone(),
            },
        }
    }
}

/// Totals of a session.
#[derive(Debug, PartialEq, Eq)]
pub struct SessionStats {
    pub message_count: u64,
    pub usage: Usage,
}

/// Contents of a [`SessionStats`].
pub struct SessionStatsView {
    pub message_count: u64,
    pub usage: UsageView,
}

impl DeepView for SessionStats {
    type V = SessionStatsView;

    open spec fn deep_view(&self) -> SessionStatsView {
        SessionStatsView {
            message_count: self.message_count.deep_view(),
            usage: self.usage.deep_view(),
        }
    }
}

impl Clone for SessionStats {
    fn clone(&self) -> (r: Self)
        ensures
            r.deep_view() == self.deep_view(),
    {
        SessionStats {
            message_count: self.message_count,
            usage: self.usage.clone(),
        }
    }
}

/// What a commit reports back.
#[derive(Debug, PartialEq, Eq)]
pub struct CommitResult {
    pub seqs: Vec<u64>,
    pub timestamp: u64,
    pub stats: SessionStats,
}

/// Contents of a [`CommitResult`].
pub struct CommitResultView {
    pub seqs: Seq<u64>,
    pub timestamp: u64,
    pub stats: SessionStatsView,
}

impl DeepView for CommitResult {
    type V = CommitResultView;

    open spec fn deep_view(&self) -> CommitResultView {
        CommitResultView {
            seqs: self.seqs.deep_view(),
            timestamp: self.timestamp.deep_view(),
            stats: self.stats.deep_view(),
        }
    }
}

impl Clone for CommitResult {
    fn clone(&self) -> (r: Self)
        ensures
            r.deep_view() == self.deep_view(),
    {
        CommitResult {
            seqs: self.seqs.clone(),
            timestamp: self.timestamp,
            stats: self.stats.clone(),
        }
    }
}

} // verus!
