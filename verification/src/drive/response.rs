//! Settling a response: what an assistant generation or a deferred poll came
//! back with, and the one commit that records it.

use crate::command::{OperationCommand, OperationCommandView};
use crate::drive::boundary::{tip_write, write_tip};
use crate::drive::checkpoint::{
    preparation_write, write_preparation, DueCompaction, DueCompactionView,
};
use crate::drive::retry::{resume_time, retry_not_before};
use crate::drive::terminal::{
    cleanup, collecting, is_scratch, lemma_cleanup_spares, operation_cleanup_writes,
    operation_result_record, result_record,
};
use crate::durable::{
    committed, in_step, lemma_committed_concat, lemma_committed_push, lemma_spared, spares,
};
use crate::lane::settle::{keeps_step, law_settling_keeps_step, safe_decision, settled};
use crate::model::event::{HarnessEvent, HarnessEventView, PlannedEvent, PlannedEventView};
use crate::model::message::{
    AgentMessage, AgentMessageView, AssistantMessage, AssistantMessageView, ContentBlock,
    ContentBlockView, StopReason,
};
use crate::model::session::{
    CheckpointData, CheckpointDataView, Continuation, Control, DeferredScope, DeferredScopeView,
    LaneConfiguration, LaneConfigurationView, OperationError, OperationErrorView,
    OperationIntentView, OperationMeta, OperationMetaView, OperationScope, OperationScopeView,
    OperationState, OperationStateView, ResultBoundary, ResultBoundaryView, SummaryTask,
    SummaryTaskView, TerminalStatus, ToolBatch, ToolBatchView, ToolCall, ToolCallView,
};
use crate::model::storage::{
    Address, AddressView, DurableValueView, NewEntry, NewEntryView, NewMessageEntry,
    NewMessageEntryView, UsageRow, UsageRowView, Write, WriteView,
};
use crate::restore::matches_intent;
use crate::state::is_cancelled;
use crate::text::{decimal, decimal_text, join};
use crate::transcript::append_all;
use crate::types::{
    LanePatch, LanePatchView, LaneRuntimeState, LaneRuntimeStateView, ProcedureResult,
    ProcedureResultView,
};
use vstd::prelude::*;
use vstd::string::*;

verus! {

/// Where a response comes from.
#[derive(Clone, Copy, Debug, PartialEq, Eq, Structural)]
pub enum ResponseSource {
    Assistant,
    Deferred,
}

/// The name of a response's source in messages.
pub open spec fn source_name(source: ResponseSource) -> Seq<char> {
    match source {
        ResponseSource::Assistant => "Assistant"@,
        ResponseSource::Deferred => "Deferred"@,
    }
}

fn source_text(source: ResponseSource) -> (r: &'static str)
    ensures
        r@ == source_name(source),
{
    match source {
        ResponseSource::Assistant => "Assistant",
        ResponseSource::Deferred => "Deferred",
    }
}

/// The name of a stop reason.
pub open spec fn stop_name(reason: StopReason) -> Seq<char> {
    match reason {
        StopReason::Pending => "Pending"@,
        StopReason::Stop => "Stop"@,
        StopReason::Length => "Length"@,
        StopReason::ToolUse => "ToolUse"@,
        StopReason::Error => "Error"@,
        StopReason::Aborted => "Aborted"@,
        StopReason::Deferred => "Deferred"@,
    }
}

fn stop_text(reason: StopReason) -> (r: &'static str)
    ensures
        r@ == stop_name(reason),
{
    match reason {
        StopReason::Pending => "Pending",
        StopReason::Stop => "Stop",
        StopReason::Length => "Length",
        StopReason::ToolUse => "ToolUse",
        StopReason::Error => "Error",
        StopReason::Aborted => "Aborted",
        StopReason::Deferred => "Deferred",
    }
}

/// The error of a response: its own message, or one that names its stop reason.
pub open spec fn response_error(
    source: ResponseSource,
    message: AssistantMessageView,
) -> OperationErrorView {
    OperationErrorView {
        code: "assistant_error"@,
        message: match message.error_message {
            Some(text) => text,
            None => source_name(source) + " request ended with "@ + stop_name(
                message.stop_reason,
            ),
        },
        details: None,
    }
}

/// Makes the error of a response.
pub fn provider_error(source: ResponseSource, message: &AssistantMessage) -> (r: OperationError)
    ensures
        r.deep_view() == response_error(source, message.deep_view()),
{
    let text = match &message.error_message {
        Some(text) => text.clone(),
        None => join(
            join(source_text(source).to_string(), " request ended with "),
            stop_text(message.stop_reason),
        ),
    };
    OperationError { code: "assistant_error".to_string(), message: text, details: None }
}

/// A response turned into an error.
pub open spec fn as_error(message: AssistantMessageView, text: Seq<char>) -> AssistantMessageView {
    AssistantMessageView {
        stop_reason: StopReason::Error,
        error_message: Some(text),
        ..message
    }
}

/// Turns a response into an error.
pub fn normalize_error(message: &AssistantMessage, text: &str) -> (r: AssistantMessage)
    ensures
        r.deep_view() == as_error(message.deep_view(), text@),
{
    let mut normalized = message.clone();
    normalized.stop_reason = StopReason::Error;
    normalized.error_message = Some(text.to_string());
    normalized
}

/// A response turned into a cancelled one.
pub open spec fn as_aborted(
    source: ResponseSource,
    message: AssistantMessageView,
) -> AssistantMessageView {
    AssistantMessageView {
        stop_reason: StopReason::Aborted,
        error_message: Some(
            match message.error_message {
                Some(text) => text,
                None => source_name(source) + " request was cancelled"@,
            },
        ),
        ..message
    }
}

/// Turns a response into a cancelled one.
pub fn normalize_aborted(source: ResponseSource, message: &AssistantMessage) -> (r: AssistantMessage)
    ensures
        r.deep_view() == as_aborted(source, message.deep_view()),
{
    let text = match &message.error_message {
        Some(text) => text.clone(),
        None => join(source_text(source).to_string(), " request was cancelled"),
    };
    let mut normalized = message.clone();
    normalized.stop_reason = StopReason::Aborted;
    normalized.error_message = Some(text);
    normalized
}

/// Whether a deferred response can be polled: it has a handle with an id, of
/// the configured model and of the response's own API.
pub open spec fn pollable(
    message: AssistantMessageView,
    configuration: LaneConfigurationView,
) -> bool {
    &&& message.stop_reason == StopReason::Deferred
    &&& message.deferred matches Some(handle)
    &&& handle.id.len() > 0
    &&& handle.provider == configuration.model.provider
    &&& handle.model_id == configuration.model.model_id
    &&& handle.api == message.api
}

/// Whether a deferred response can be polled.
pub fn deferred_handle_is_valid(
    message: &AssistantMessage,
    configuration: &LaneConfiguration,
) -> (r: bool)
    ensures
        r == pollable(message.deep_view(), configuration.deep_view()),
{
    match &message.deferred {
        None => false,
        Some(handle) => message.stop_reason == StopReason::Deferred && !handle.id.as_str().is_empty()
            && handle.provider == configuration.model.provider && handle.model_id
            == configuration.model.model_id && handle.api == message.api,
    }
}

/// The value of a hexadecimal digit in ASCII.
pub open spec fn hex_digit(byte: u8) -> Option<nat> {
    if 0x30 <= byte <= 0x39 {
        Some((byte - 0x30) as nat)
    } else if 0x61 <= byte <= 0x66 {
        Some((byte - 0x61 + 10) as nat)
    } else if 0x41 <= byte <= 0x46 {
        Some((byte - 0x41 + 10) as nat)
    } else {
        None
    }
}

/// The value of hexadecimal digits, the most significant first.
pub open spec fn hex_value(digits: Seq<u8>) -> Option<nat>
    decreases digits.len(),
{
    if digits.len() == 0 {
        Some(0)
    } else {
        match (hex_value(digits.drop_last()), hex_digit(digits.last())) {
            (Some(value), Some(digit)) => Some(value * 16 + digit),
            _ => None,
        }
    }
}

/// The twelve characters of a UUIDv7 that hold its time: eight, a separator,
/// and four more.
pub open spec fn time_digits(bytes: Seq<u8>) -> Seq<u8> {
    bytes.subrange(0, 8) + bytes.subrange(9, 13)
}

/// The time of a UUIDv7 in milliseconds. A plus sign may lead its digits.
pub open spec fn uuid_time(bytes: Seq<u8>) -> Option<nat> {
    if bytes.len() < 13 {
        None
    } else if bytes[0] == 0x2b {
        hex_value(time_digits(bytes).drop_first())
    } else {
        hex_value(time_digits(bytes))
    }
}

fn hex_digit_value(byte: u8) -> (r: Option<u64>)
    ensures
        match hex_digit(byte) {
            Some(value) => r is Some && r->Some_0 == value && r->Some_0 < 16,
            None => r is None,
        },
{
    if 0x30 <= byte && byte <= 0x39 {
        Some((byte - 0x30) as u64)
    } else if 0x61 <= byte && byte <= 0x66 {
        Some((byte - 0x61) as u64 + 10)
    } else if 0x41 <= byte && byte <= 0x46 {
        Some((byte - 0x41) as u64 + 10)
    } else {
        None
    }
}

/// Digits in front of digits have a value if the whole has one.
proof fn lemma_hex_prefix(digits: Seq<u8>, n: int)
    requires
        0 <= n <= digits.len(),
        hex_value(digits) is Some,
    ensures
        hex_value(digits.take(n)) is Some,
    decreases digits.len(),
{
    if n < digits.len() {
        assert(digits.drop_last().take(n) =~= digits.take(n));
        lemma_hex_prefix(digits.drop_last(), n);
    } else {
        assert(digits.take(n) =~= digits);
    }
}

spec fn pow16(n: nat) -> nat
    decreases n,
{
    if n == 0 {
        1
    } else {
        16 * pow16((n - 1) as nat)
    }
}

proof fn lemma_hex_bound(digits: Seq<u8>)
    requires
        hex_value(digits) is Some,
    ensures
        hex_value(digits)->Some_0 < pow16(digits.len()),
    decreases digits.len(),
{
    if digits.len() > 0 {
        lemma_hex_bound(digits.drop_last());
        let value = hex_value(digits.drop_last())->Some_0;
        let digit = hex_digit(digits.last())->Some_0;
        let bound = pow16(digits.drop_last().len());
        assert(value * 16 + digit < 16 * bound) by (nonlinear_arith)
            requires
                value < bound,
                digit < 16,
        ;
    }
}

fn read_time(id: &str) -> (r: Option<u64>)
    ensures
        match uuid_time(id.spec_bytes()) {
            Some(time) => r is Some && r->Some_0 == time,
            None => r is None,
        },
{
    let bytes = id.as_bytes();
    if bytes.len() < 13 {
        return None;
    }
    let ghost all = time_digits(bytes@);
    let start: usize = if bytes[0] == 0x2b {
        1
    } else {
        0
    };
    let ghost digits = if start == 1 {
        all.drop_first()
    } else {
        all
    };
    let mut value: u64 = 0;
    let mut i: usize = start;
    assert(digits.take(0) =~= Seq::empty());
    while i < 12
        invariant
            start <= i <= 12,
            start <= 1,
            bytes.len() >= 13,
            bytes@ == id.spec_bytes(),
            start == 1 <==> bytes@[0] == 0x2b,
            all == time_digits(bytes@),
            digits == (if start == 1 {
                all.drop_first()
            } else {
                all
            }),
            digits.len() == 12 - start,
            hex_value(digits.take(i - start)) == Some(value as nat),
            value < pow16((i - start) as nat),
        decreases 12 - i,
    {
        let ghost k = i - start;
        let byte: u8 = if i < 8 {
            bytes[i]
        } else {
            bytes[i + 1]
        };
        assert(byte == digits[k]);
        assert(digits.take(k + 1).drop_last() =~= digits.take(k));
        match hex_digit_value(byte) {
            None => {
                proof {
                    if hex_value(digits) is Some {
                        lemma_hex_prefix(digits, k + 1);
                    }
                }
                return None;
            },
            Some(digit) => {
                proof {
                    assert(hex_value(digits.take(k + 1)) is Some);
                    lemma_hex_bound(digits.take(k + 1));
                    lemma_pow16(k as nat);
                }
                value = value * 16 + digit;
            },
        }
        i += 1;
    }
    assert(digits.take(i - start) =~= digits);
    Some(value)
}

/// Reads the time out of a UUIDv7.
pub fn uuid_v7_timestamp(id: &str) -> (r: Result<u64, String>)
    ensures
        match uuid_time(id.spec_bytes()) {
            Some(time) => r is Ok && r->Ok_0 == time,
            None => r is Err && r->Err_0@ == "Invalid reserved UUIDv7 "@ + id@,
        },
{
    match read_time(id) {
        Some(time) => Ok(time),
        None => Err(join("Invalid reserved UUIDv7 ".to_string(), id)),
    }
}

proof fn lemma_pow16(n: nat)
    requires
        n <= 11,
    ensures
        pow16(n) <= 0x1000_0000_0000,
{
    reveal_with_fuel(pow16, 13);
}

/// The entry id reserved for the response of an effect.
pub open spec fn reserved_response(intent: OperationStateView) -> Seq<char> {
    match collecting(intent) {
        Some(response_entry_id) => response_entry_id,
        None => Seq::empty(),
    }
}

/// The usage id reserved for the response of an effect.
pub open spec fn reserved_usage(intent: OperationStateView) -> Seq<char> {
    match intent {
        OperationStateView::AssistantEffectPending { usage_id, .. } => usage_id,
        OperationStateView::DeferredEffectPending { usage_id, .. } => usage_id,
        _ => Seq::empty(),
    }
}

/// The entry id reserved for the response of an effect.
pub fn intent_response_entry_id(intent: &OperationState) -> (r: String)
    ensures
        r@ == reserved_response(intent.deep_view()),
{
    match intent {
        OperationState::AssistantEffectPending { response_entry_id, .. }
        | OperationState::DeferredEffectPending { response_entry_id, .. } => {
            response_entry_id.clone()
        },
        _ => String::new(),
    }
}

/// The usage id reserved for the response of an effect.
pub fn intent_usage_id(intent: &OperationState) -> (r: String)
    ensures
        r@ == reserved_usage(intent.deep_view()),
{
    match intent {
        OperationState::AssistantEffectPending { usage_id, .. }
        | OperationState::DeferredEffectPending { usage_id, .. } => usage_id.clone(),
        _ => String::new(),
    }
}

/// The context window that a generation was requested with.
pub fn intent_context_window(intent: &OperationState) -> (r: Option<u64>)
    ensures
        r == (match intent.deep_view() {
            OperationStateView::AssistantEffectPending { context_window, .. } => Some(
                context_window,
            ),
            _ => None,
        }),
{
    match intent {
        OperationState::AssistantEffectPending { context_window, .. } => Some(*context_window),
        _ => None,
    }
}

/// The output limit that a generation was requested with.
pub fn intent_output_limit(intent: &OperationState) -> (r: u64)
    ensures
        r == (match intent.deep_view() {
            OperationStateView::AssistantEffectPending { intended_output_limit, .. } => {
                intended_output_limit
            },
            _ => 0,
        }),
{
    match intent {
        OperationState::AssistantEffectPending { intended_output_limit, .. } => {
            *intended_output_limit
        },
        _ => 0,
    }
}

/// Whether a generation already follows a recovery from overflow.
pub open spec fn recovered_before(intent: OperationStateView) -> bool {
    match intent {
        OperationStateView::AssistantEffectPending { generation_context, .. } => {
            generation_context.overflow_recovery_used
        },
        _ => false,
    }
}

/// Whether a generation already follows a recovery from overflow.
pub fn intent_overflow_recovery_used(intent: &OperationState) -> (r: bool)
    ensures
        r == recovered_before(intent.deep_view()),
{
    match intent {
        OperationState::AssistantEffectPending { generation_context, .. } => {
            generation_context.overflow_recovery_used
        },
        _ => false,
    }
}

/// Whether a response overflowed its context: it comes from a generation, and
/// either it says so or it was cut short and could be recovered.
pub fn response_overflows(
    intent: &OperationState,
    context_overflow: bool,
    recoverable_length: bool,
) -> (r: bool)
    ensures
        r == (intent.deep_view() is AssistantEffectPending && (context_overflow
            || recoverable_length)),
{
    match intent {
        OperationState::AssistantEffectPending { .. } => context_overflow || recoverable_length,
        _ => false,
    }
}

/// The places of the tool calls in a response.
pub open spec fn call_indices(content: Seq<ContentBlockView>) -> Seq<usize>
    decreases content.len(),
{
    if content.len() == 0 {
        Seq::empty()
    } else {
        let rest = call_indices(content.drop_last());
        if content.last() is ToolCall {
            rest.push((content.len() - 1) as usize)
        } else {
            rest
        }
    }
}

/// Finds the tool calls in a response.
pub fn tool_call_indices(content: &Vec<ContentBlock>) -> (r: Vec<usize>)
    ensures
        r@ == call_indices(content.deep_view()),
{
    let mut indices: Vec<usize> = Vec::new();
    let mut i: usize = 0;
    assert(indices@ =~= Seq::empty());
    while i < content.len()
        invariant
            i <= content.len(),
            indices@ == call_indices(content.deep_view().take(i as int)),
        decreases content.len() - i,
    {
        proof {
            crate::transcript::lemma_prefix_push(*content, i as int);
        }
        if let ContentBlock::ToolCall(_) = &content[i] {
            indices.push(i);
        }
        i += 1;
    }
    assert(content.deep_view().take(i as int) =~= content.deep_view());
    indices
}

/// The calls planned for a response, each with the entry reserved for its
/// result.
pub open spec fn planned_calls(indices: Seq<usize>, ids: Seq<Seq<char>>) -> Seq<ToolCallView> {
    Seq::new(
        indices.len(),
        |i: int|
            ToolCallView::Planned { source_index: indices[i], result_entry_id: ids[i] },
    )
}

fn plan_calls(indices: &Vec<usize>, ids: &Vec<String>) -> (r: Vec<ToolCall>)
    requires
        indices.len() == ids.len(),
    ensures
        r.deep_view() == planned_calls(indices@, ids.deep_view()),
{
    let mut calls: Vec<ToolCall> = Vec::new();
    let mut i: usize = 0;
    while i < indices.len()
        invariant
            i <= indices.len(),
            indices.len() == ids.len(),
            calls.len() == i,
            forall|k: int|
                0 <= k < i ==> #[trigger] calls[k].deep_view() == planned_calls(
                    indices@,
                    ids.deep_view(),
                )[k],
        decreases indices.len() - i,
    {
        calls.push(
            ToolCall::Planned { source_index: indices[i], result_entry_id: ids[i].clone() },
        );
        i += 1;
    }
    assert(calls.deep_view() =~= planned_calls(indices@, ids.deep_view())) by {
        assert forall|k: int| 0 <= k < calls.len() implies #[trigger] calls.deep_view()[k]
            == planned_calls(indices@, ids.deep_view())[k] by {
            assert(calls[k].deep_view() == planned_calls(indices@, ids.deep_view())[k]);
        }
    }
    calls
}

/// What became of a response.
#[derive(Debug, PartialEq, Eq)]
pub enum Disposition {
    /// The operation goes on.
    Next(OperationState),
    /// The operation failed.
    Failed(OperationError),
}

/// Contents of a [`Disposition`].
pub enum DispositionView {
    Next(OperationStateView),
    Failed(OperationErrorView),
}

impl DeepView for Disposition {
    type V = DispositionView;

    open spec fn deep_view(&self) -> DispositionView {
        match self {
            Disposition::Next(state) => DispositionView::Next(state.deep_view()),
            Disposition::Failed(error) => DispositionView::Failed(error.deep_view()),
        }
    }
}

/// A settled response: what is committed of it and what becomes of it.
#[derive(Debug, PartialEq, Eq)]
pub struct Settlement {
    pub committed: AssistantMessage,
    pub disposition: Disposition,
}

/// Contents of a [`Settlement`].
pub struct SettlementView {
    pub committed: AssistantMessageView,
    pub disposition: DispositionView,
}

impl DeepView for Settlement {
    type V = SettlementView;

    open spec fn deep_view(&self) -> SettlementView {
        SettlementView {
            committed: self.committed.deep_view(),
            disposition: self.disposition.deep_view(),
        }
    }
}

/// Where the response to an effect comes from.
pub open spec fn source_of(current: OperationStateView) -> ResponseSource {
    if current is AssistantEffectPending {
        ResponseSource::Assistant
    } else {
        ResponseSource::Deferred
    }
}

/// The configuration of an effect.
pub open spec fn effect_configuration(current: OperationStateView) -> LaneConfigurationView {
    match current {
        OperationStateView::AssistantEffectPending { generation_context, .. } => {
            generation_context.configuration
        },
        OperationStateView::DeferredEffectPending { scope, .. } => scope.configuration,
        _ => arbitrary(),
    }
}

/// The turn of an effect. Each poll of a deferred response is a turn.
pub open spec fn effect_turn(current: OperationStateView) -> Seq<char> {
    match current {
        OperationStateView::AssistantEffectPending { generation_context, .. } => {
            generation_context.step_id
        },
        OperationStateView::DeferredEffectPending { scope, .. } => poll_turn(
            scope.step_id,
            scope.poll,
        ),
        _ => arbitrary(),
    }
}

/// The turn of a poll.
pub open spec fn poll_turn(step_id: Seq<char>, poll: u64) -> Seq<char> {
    step_id + ":poll:"@ + decimal(poll as nat)
}

/// Names the turn of a poll.
pub fn poll_turn_id(step_id: &String, poll: u64) -> (r: String)
    ensures
        r@ == poll_turn(step_id@, poll),
{
    join(join(step_id.clone(), ":poll:"), decimal_text(poll).as_str())
}

/// The scope after the response to an effect, which is now the latest.
pub open spec fn scope_after(
    current: OperationStateView,
    response_entry_id: Seq<char>,
) -> OperationScopeView {
    match current {
        OperationStateView::DeferredEffectPending { scope, .. } => OperationScopeView {
            control: scope.control,
            settings: scope.settings,
            latest_assistant_entry_id: Some(response_entry_id),
        },
        _ => OperationScopeView {
            latest_assistant_entry_id: Some(response_entry_id),
            ..current.scope()
        },
    }
}

/// A run that may finish after its response.
pub open spec fn finishing_checkpoint(
    scope: OperationScopeView,
    response_entry_id: Seq<char>,
) -> OperationStateView {
    OperationStateView::Checkpoint {
        scope,
        continuation: Continuation::MayFinish { include_final_assistant: true },
        trigger_entry_id: response_entry_id,
    }
}

/// Settling a response that overflowed its context: a compaction recovers the
/// run once; otherwise the run fails.
pub open spec fn settled_overflow(
    current: OperationStateView,
    scope: OperationScopeView,
    response: AssistantMessageView,
    due: Option<DueCompactionView>,
) -> SettlementView {
    let committed = as_error(
        response,
        match response.error_message {
            Some(text) => text,
            None => "Assistant request exceeded the context window"@,
        },
    );
    SettlementView {
        committed,
        disposition: match (current, due) {
            (
                OperationStateView::AssistantEffectPending { generation_context, .. },
                Some(due),
            ) if !generation_context.overflow_recovery_used => DispositionView::Next(
                OperationStateView::SummaryDeciding {
                    scope,
                    task: SummaryTaskView {
                        task_id: due.task_id,
                        reason: Some("overflow"@),
                        custom_instructions: None,
                        boundary: ResultBoundaryView::ResumeCheckpoint {
                            resume_after: CheckpointDataView {
                                continuation: Continuation::NeedAssistant {
                                    overflow_recovery_used: true,
                                },
                                trigger_entry_id: generation_context.trigger_entry_id,
                            },
                        },
                    },
                },
            ),
            _ => DispositionView::Failed(response_error(ResponseSource::Assistant, committed)),
        },
    }
}

/// Settling a response that is to be delivered later: the run suspends, a new
/// one with the handle it got, a polled one as it was.
pub open spec fn settled_deferral(
    current: OperationStateView,
    scope: OperationScopeView,
    response_entry_id: Seq<char>,
    response: AssistantMessageView,
) -> SettlementView {
    match current {
        OperationStateView::AssistantEffectPending { generation_context, .. } => {
            if pollable(response, generation_context.configuration) {
                SettlementView {
                    committed: response,
                    disposition: DispositionView::Next(
                        OperationStateView::DeferredSuspended {
                            scope: DeferredScopeView {
                                control: scope.control,
                                settings: scope.settings,
                                latest_assistant_entry_id: Some(response_entry_id),
                                step_id: generation_context.step_id,
                                source_entry_id: response_entry_id,
                                poll: 0,
                                configuration: generation_context.configuration,
                                stream_options: generation_context.stream_options,
                            },
                        },
                    ),
                }
            } else {
                let committed = as_error(
                    response,
                    "Provider returned an invalid deferred handle"@,
                );
                SettlementView {
                    committed,
                    disposition: DispositionView::Failed(
                        response_error(ResponseSource::Assistant, committed),
                    ),
                }
            }
        },
        OperationStateView::DeferredEffectPending { scope: polled, .. } => SettlementView {
            committed: response,
            disposition: DispositionView::Next(
                OperationStateView::DeferredSuspended {
                    scope: DeferredScopeView {
                        latest_assistant_entry_id: Some(response_entry_id),
                        ..polled
                    },
                },
            ),
        },
        _ => arbitrary(),
    }
}

/// Settling a response that is an error: a generation is retried while
/// attempts are left; otherwise the run fails.
pub open spec fn settled_error(
    current: OperationStateView,
    scope: OperationScopeView,
    response: AssistantMessageView,
    retryable: bool,
    not_before: u64,
) -> SettlementView {
    SettlementView {
        committed: response,
        disposition: match current {
            OperationStateView::AssistantEffectPending {
                generation_context,
                attempt,
                ..
            } if retryable && attempt < generation_context.retry_policy.max_attempts => {
                DispositionView::Next(
                    OperationStateView::AssistantRetryWait {
                        scope,
                        generation_context,
                        next_attempt: (attempt + 1) as u32,
                        not_before,
                        error_message: match response.error_message {
                            Some(text) => text,
                            None => "Assistant request failed"@,
                        },
                    },
                )
            },
            _ => DispositionView::Failed(response_error(source_of(current), response)),
        },
    }
}

/// Settling a complete response: its tool calls are run, or the run may finish.
pub open spec fn settled_answer(
    current: OperationStateView,
    scope: OperationScopeView,
    response_entry_id: Seq<char>,
    response: AssistantMessageView,
    call_ids: Seq<Seq<char>>,
) -> SettlementView {
    let indices = call_indices(response.content);
    if indices.len() > 0 {
        SettlementView {
            committed: response,
            disposition: DispositionView::Next(
                OperationStateView::Tools {
                    scope,
                    batch: ToolBatchView {
                        assistant_entry_id: response_entry_id,
                        configuration: effect_configuration(current),
                        turn_id: effect_turn(current),
                        calls: planned_calls(indices, call_ids),
                    },
                },
            ),
        }
    } else if response.stop_reason == StopReason::ToolUse {
        let committed = as_error(response, "Provider reported tool use without any tool calls"@);
        SettlementView {
            committed,
            disposition: DispositionView::Failed(response_error(source_of(current), committed)),
        }
    } else {
        SettlementView {
            committed: response,
            disposition: DispositionView::Next(finishing_checkpoint(scope, response_entry_id)),
        }
    }
}

/// Whether a response counts as an answer, whose tool calls are run.
pub open spec fn is_answer(
    current: OperationStateView,
    response: AssistantMessageView,
    overflow: bool,
) -> bool {
    &&& current is AssistantEffectPending && !overflow || current is DeferredEffectPending
    &&& !current.cancelled()
    &&& response.stop_reason != StopReason::Aborted
    &&& response.stop_reason != StopReason::Deferred
    &&& response.stop_reason != StopReason::Error
}

/// Finds the times at which entries are reserved for the results of the tool
/// calls of a response: that of the entry of the response, once for each call of
/// an answer.
pub fn reserve_calls(
    current: &OperationState,
    response_entry_id: &str,
    response: &AssistantMessage,
    overflow: bool,
) -> (r: Result<Vec<u64>, String>)
    ensures
        ({
            let calls = call_indices(response.deep_view().content).len();
            if !is_answer(current.deep_view(), response.deep_view(), overflow) || calls == 0 {
                r is Ok && r->Ok_0@ == Seq::<u64>::empty()
            } else {
                match uuid_time(response_entry_id.spec_bytes()) {
                    Some(time) => r is Ok && r->Ok_0@ == Seq::new(calls, |i: int| time as u64),
                    None => r is Err && r->Err_0@ == "Invalid reserved UUIDv7 "@
                        + response_entry_id@,
                }
            }
        }),
{
    let mut times: Vec<u64> = Vec::new();
    let answered = match current {
        OperationState::AssistantEffectPending { .. } => !overflow,
        OperationState::DeferredEffectPending { .. } => true,
        _ => false,
    };
    if !answered || is_cancelled(current) || response.stop_reason == StopReason::Aborted
        || response.stop_reason == StopReason::Deferred || response.stop_reason
        == StopReason::Error {
        return Ok(times);
    }
    let calls: usize = tool_call_indices(&response.content).len();
    if calls == 0 {
        return Ok(times);
    }
    let time: u64 = match uuid_v7_timestamp(response_entry_id) {
        Ok(time) => time,
        Err(message) => {
            return Err(message);
        },
    };
    for i in 0..calls
        invariant
            times@ =~= Seq::new(i as nat, |i: int| time),
    {
        times.push(time);
    }
    Ok(times)
}

/// What becomes of a response. A request to stop overrules whatever came back.
pub open spec fn settlement(
    current: OperationStateView,
    response_entry_id: Seq<char>,
    response: AssistantMessageView,
    overflow: bool,
    due: Option<DueCompactionView>,
    retryable: bool,
    not_before: u64,
    call_ids: Seq<Seq<char>>,
) -> Result<SettlementView, Seq<char>> {
    let scope = scope_after(current, response_entry_id);
    let source = source_of(current);
    if !(current is AssistantEffectPending) && !(current is DeferredEffectPending) {
        Err("Response intent is not an effect-pending state"@)
    } else if current.cancelled() {
        Ok(
            SettlementView {
                committed: as_aborted(source, response),
                disposition: DispositionView::Next(finishing_checkpoint(scope, response_entry_id)),
            },
        )
    } else if response.stop_reason == StopReason::Aborted {
        Err(source_name(source) + " response is aborted while durable control is running"@)
    } else if current is AssistantEffectPending && overflow {
        Ok(settled_overflow(current, scope, response, due))
    } else if response.stop_reason == StopReason::Deferred {
        Ok(settled_deferral(current, scope, response_entry_id, response))
    } else if response.stop_reason == StopReason::Error {
        Ok(settled_error(current, scope, response, retryable, not_before))
    } else {
        Ok(settled_answer(current, scope, response_entry_id, response, call_ids))
    }
}

fn settle_overflow(
    current: &OperationState,
    scope: OperationScope,
    response: &AssistantMessage,
    due: &Option<DueCompaction>,
) -> (r: Settlement)
    requires
        current.deep_view() is AssistantEffectPending,
    ensures
        r.deep_view() == settled_overflow(
            current.deep_view(),
            scope.deep_view(),
            response.deep_view(),
            due.deep_view(),
        ),
{
    let committed = match &response.error_message {
        Some(text) => normalize_error(response, text.as_str()),
        None => normalize_error(response, "Assistant request exceeded the context window"),
    };
    match (current, due) {
        (OperationState::AssistantEffectPending { generation_context, .. }, Some(due)) => {
            if generation_context.overflow_recovery_used {
                let error = provider_error(ResponseSource::Assistant, &committed);
                return Settlement { committed, disposition: Disposition::Failed(error) };
            }
            let state = OperationState::SummaryDeciding {
                scope,
                task: SummaryTask {
                    task_id: due.task_id.clone(),
                    reason: Some("overflow".to_string()),
                    custom_instructions: None,
                    boundary: ResultBoundary::ResumeCheckpoint {
                        resume_after: CheckpointData {
                            continuation: Continuation::NeedAssistant {
                                overflow_recovery_used: true,
                            },
                            trigger_entry_id: generation_context.trigger_entry_id.clone(),
                        },
                    },
                },
            };
            Settlement { committed, disposition: Disposition::Next(state) }
        },
        _ => {
            let error = provider_error(ResponseSource::Assistant, &committed);
            Settlement { committed, disposition: Disposition::Failed(error) }
        },
    }
}

fn settle_deferral(
    current: &OperationState,
    scope: OperationScope,
    response_entry_id: &String,
    response: &AssistantMessage,
) -> (r: Settlement)
    requires
        current.deep_view() is AssistantEffectPending || current.deep_view()
            is DeferredEffectPending,
        scope.deep_view() == scope_after(current.deep_view(), response_entry_id@),
    ensures
        r.deep_view() == settled_deferral(
            current.deep_view(),
            scope.deep_view(),
            response_entry_id@,
            response.deep_view(),
        ),
{
    match current {
        OperationState::AssistantEffectPending { generation_context, .. } => {
            if deferred_handle_is_valid(response, &generation_context.configuration) {
                let state = OperationState::DeferredSuspended {
                    scope: DeferredScope {
                        control: scope.control,
                        settings: scope.settings,
                        latest_assistant_entry_id: Some(response_entry_id.clone()),
                        step_id: generation_context.step_id.clone(),
                        source_entry_id: response_entry_id.clone(),
                        poll: 0,
                        configuration: generation_context.configuration.clone(),
                        stream_options: generation_context.stream_options.clone(),
                    },
                };
                Settlement { committed: response.clone(), disposition: Disposition::Next(state) }
            } else {
                let committed = normalize_error(
                    response,
                    "Provider returned an invalid deferred handle",
                );
                let error = provider_error(ResponseSource::Assistant, &committed);
                Settlement { committed, disposition: Disposition::Failed(error) }
            }
        },
        OperationState::DeferredEffectPending { scope: polled, .. } => {
            let state = OperationState::DeferredSuspended {
                scope: DeferredScope {
                    control: polled.control,
                    settings: polled.settings,
                    latest_assistant_entry_id: Some(response_entry_id.clone()),
                    step_id: polled.step_id.clone(),
                    source_entry_id: polled.source_entry_id.clone(),
                    poll: polled.poll,
                    configuration: polled.configuration.clone(),
                    stream_options: polled.stream_options.clone(),
                },
            };
            Settlement { committed: response.clone(), disposition: Disposition::Next(state) }
        },
        _ => vstd::pervasive::unreached(),
    }
}

fn source(current: &OperationState) -> (r: ResponseSource)
    ensures
        r == source_of(current.deep_view()),
{
    match current {
        OperationState::AssistantEffectPending { .. } => ResponseSource::Assistant,
        _ => ResponseSource::Deferred,
    }
}

fn settle_error(
    current: &OperationState,
    scope: OperationScope,
    response: &AssistantMessage,
    retryable: bool,
    not_before: u64,
) -> (r: Settlement)
    ensures
        r.deep_view() == settled_error(
            current.deep_view(),
            scope.deep_view(),
            response.deep_view(),
            retryable,
            not_before,
        ),
{
    match current {
        OperationState::AssistantEffectPending { generation_context, attempt, .. } => {
            if retryable && *attempt < generation_context.retry_policy.max_attempts {
                let error_message = match &response.error_message {
                    Some(text) => text.clone(),
                    None => "Assistant request failed".to_string(),
                };
                let state = OperationState::AssistantRetryWait {
                    scope,
                    generation_context: generation_context.clone(),
                    next_attempt: *attempt + 1,
                    not_before,
                    error_message,
                };
                return Settlement {
                    committed: response.clone(),
                    disposition: Disposition::Next(state),
                };
            }
        },
        _ => {},
    }
    let error = provider_error(source(current), response);
    Settlement { committed: response.clone(), disposition: Disposition::Failed(error) }
}

fn settle_answer(
    current: &OperationState,
    scope: OperationScope,
    response_entry_id: &String,
    response: &AssistantMessage,
    call_ids: &Vec<String>,
) -> (r: Settlement)
    requires
        current.deep_view() is AssistantEffectPending || current.deep_view()
            is DeferredEffectPending,
        call_ids.len() == call_indices(response.deep_view().content).len(),
    ensures
        r.deep_view() == settled_answer(
            current.deep_view(),
            scope.deep_view(),
            response_entry_id@,
            response.deep_view(),
            call_ids.deep_view(),
        ),
{
    let indices = tool_call_indices(&response.content);
    if indices.len() > 0 {
        let (configuration, turn_id) = match current {
            OperationState::AssistantEffectPending { generation_context, .. } => (
                generation_context.configuration.clone(),
                generation_context.step_id.clone(),
            ),
            OperationState::DeferredEffectPending { scope, .. } => (
                scope.configuration.clone(),
                poll_turn_id(&scope.step_id, scope.poll),
            ),
            _ => vstd::pervasive::unreached(),
        };
        let state = OperationState::Tools {
            scope,
            batch: ToolBatch {
                assistant_entry_id: response_entry_id.clone(),
                configuration,
                turn_id,
                calls: plan_calls(&indices, call_ids),
            },
        };
        Settlement { committed: response.clone(), disposition: Disposition::Next(state) }
    } else if response.stop_reason == StopReason::ToolUse {
        let committed = normalize_error(
            response,
            "Provider reported tool use without any tool calls",
        );
        let error = provider_error(source(current), &committed);
        Settlement { committed, disposition: Disposition::Failed(error) }
    } else {
        let state = OperationState::Checkpoint {
            scope,
            continuation: Continuation::MayFinish { include_final_assistant: true },
            trigger_entry_id: response_entry_id.clone(),
        };
        Settlement { committed: response.clone(), disposition: Disposition::Next(state) }
    }
}

/// Decides what becomes of a response. `call_ids` are the entries reserved for
/// the results of its tool calls.
pub fn settle_response(
    current: &OperationState,
    response_entry_id: &String,
    response: &AssistantMessage,
    overflow: bool,
    due: &Option<DueCompaction>,
    retryable: bool,
    not_before: u64,
    call_ids: &Vec<String>,
) -> (r: Result<Settlement, String>)
    requires
        is_answer(current.deep_view(), response.deep_view(), overflow) ==> call_ids.len()
            == call_indices(response.deep_view().content).len(),
    ensures
        match settlement(
            current.deep_view(),
            response_entry_id@,
            response.deep_view(),
            overflow,
            due.deep_view(),
            retryable,
            not_before,
            call_ids.deep_view(),
        ) {
            Ok(settlement) => r is Ok && r->Ok_0.deep_view() == settlement,
            Err(message) => r is Err && r->Err_0@ == message,
        },
{
    let scope = match current {
        OperationState::AssistantEffectPending { scope, .. } => OperationScope {
            control: scope.control,
            settings: scope.settings,
            latest_assistant_entry_id: Some(response_entry_id.clone()),
        },
        OperationState::DeferredEffectPending { scope, .. } => OperationScope {
            control: scope.control,
            settings: scope.settings,
            latest_assistant_entry_id: Some(response_entry_id.clone()),
        },
        _ => {
            return Err("Response intent is not an effect-pending state".to_string());
        },
    };
    let from_generation = matches!(source(current), ResponseSource::Assistant);
    if let Control::CancelRequested { .. } = scope.control {
        let committed = normalize_aborted(source(current), response);
        let state = OperationState::Checkpoint {
            scope,
            continuation: Continuation::MayFinish { include_final_assistant: true },
            trigger_entry_id: response_entry_id.clone(),
        };
        return Ok(Settlement { committed, disposition: Disposition::Next(state) });
    }
    if response.stop_reason == StopReason::Aborted {
        return Err(
            join(
                source_text(source(current)).to_string(),
                " response is aborted while durable control is running",
            ),
        );
    }
    if from_generation && overflow {
        Ok(settle_overflow(current, scope, response, due))
    } else if response.stop_reason == StopReason::Deferred {
        Ok(settle_deferral(current, scope, response_entry_id, response))
    } else if response.stop_reason == StopReason::Error {
        Ok(settle_error(current, scope, response, retryable, not_before))
    } else {
        Ok(settle_answer(current, scope, response_entry_id, response, call_ids))
    }
}

/// The entry of a response.
pub open spec fn response_entry(
    response_entry_id: Seq<char>,
    parent_id: Option<Seq<char>>,
    message: AssistantMessageView,
) -> NewEntryView {
    NewEntryView::Message(
        NewMessageEntryView {
            id: response_entry_id,
            parent_id,
            custom_type: None,
            message: AgentMessageView::Assistant(message),
            terminate: None,
        },
    )
}

/// The usage row of a response.
pub open spec fn response_usage(
    usage_id: Seq<char>,
    response_entry_id: Seq<char>,
    message: AssistantMessageView,
) -> UsageRowView {
    UsageRowView {
        id: usage_id,
        seq: 0,
        usage: message.usage,
        entry_id: Some(response_entry_id),
        adjustment: false,
        details: None,
    }
}

/// The event that ends a run.
pub open spec fn run_end(
    lane: Seq<char>,
    operation_id: Seq<char>,
    meta: OperationMetaView,
    tip_id: Option<Seq<char>>,
    ended_at: u64,
    status: TerminalStatus,
    error: Option<OperationErrorView>,
) -> PlannedEventView {
    PlannedEventView::Ready(
        HarnessEventView::RunEnd {
            lane,
            run_id: operation_id,
            from_tip_id: meta.source_tip_id,
            tip_id,
            ended_at,
            status,
            error,
            recovery: None,
        },
    )
}

/// The commit that records a settled response: its entry, its usage and the new
/// tip; then the next leaf without the frames, or the failure without any trace
/// of the operation.
pub open spec fn recorded(
    lane: Seq<char>,
    operation_id: Seq<char>,
    response_entry_id: Seq<char>,
    usage_id: Seq<char>,
    tip_id: Option<Seq<char>>,
    current: OperationStateView,
    meta: OperationMetaView,
    settlement: SettlementView,
    due: Option<DueCompactionView>,
    recovery: bool,
    scratch: Seq<AddressView>,
    ended_at: u64,
) -> OperationCommandView<ProcedureResultView> {
    let entry = response_entry(response_entry_id, tip_id, settlement.committed);
    let row = response_usage(usage_id, response_entry_id, settlement.committed);
    let head = seq![
        WriteView::InsertEntry(entry),
        WriteView::InsertUsage(row),
        tip_write(lane, Some(response_entry_id)),
    ];
    let events = seq![
        PlannedEventView::Added { entry, write_index: 0, lane, recovery: Some(recovery) },
        PlannedEventView::Ledger { row, write_index: 1, lane },
    ];
    let patch = Some(
        LanePatchView { tip_id: Some(Some(response_entry_id)), configuration: None, inbox: None },
    );
    match settlement.disposition {
        DispositionView::Next(next) => {
            let moved = head.push(
                WriteView::DeleteList {
                    address: AddressView::PendingAssistantFrames {
                        operation_id,
                        response_entry_id,
                    },
                },
            );
            OperationCommandView::Commit {
                writes: if next is SummaryDeciding && due is Some {
                    moved.push(preparation_write(operation_id, due->Some_0))
                } else {
                    moved
                },
                operation_state: next,
                lane: patch,
                result: ProcedureResultView::Continue,
                events,
            }
        },
        DispositionView::Failed(error) => {
            let record = result_record(
                meta,
                TerminalStatus::Failed,
                Some(response_entry_id),
                Some(error),
                ended_at,
            );
            OperationCommandView::Finish {
                writes: head + cleanup(operation_id, current, scratch),
                record,
                lane: patch,
                result: ProcedureResultView::Settled { outcome: record },
                events: events.push(
                    run_end(
                        lane,
                        operation_id,
                        meta,
                        Some(response_entry_id),
                        ended_at,
                        TerminalStatus::Failed,
                        Some(error),
                    ),
                ),
            }
        },
    }
}

/// Records a settled response.
pub fn record_settlement(
    lane_name: &String,
    operation_id: &String,
    response_entry_id: &String,
    usage_id: String,
    tip_id: Option<String>,
    current: &OperationState,
    meta: &OperationMeta,
    settlement: Settlement,
    due: Option<DueCompaction>,
    recovery: bool,
    scratch: Vec<Address>,
    ended_at: u64,
) -> (r: OperationCommand<ProcedureResult>)
    ensures
        r.deep_view() == recorded(
            lane_name@,
            operation_id@,
            response_entry_id@,
            usage_id@,
            tip_id.deep_view(),
            current.deep_view(),
            meta.deep_view(),
            settlement.deep_view(),
            due.deep_view(),
            recovery,
            scratch.deep_view(),
            ended_at,
        ),
{
    let ghost lane = lane_name@;
    let ghost op = operation_id@;
    let ghost id = response_entry_id@;
    let row = UsageRow {
        id: usage_id,
        seq: 0,
        usage: settlement.committed.usage.clone(),
        entry_id: Some(response_entry_id.clone()),
        adjustment: false,
        details: None,
    };
    let entry = NewEntry::Message(
        NewMessageEntry {
            id: response_entry_id.clone(),
            parent_id: tip_id,
            custom_type: None,
            message: AgentMessage::Assistant(settlement.committed),
            terminate: None,
        },
    );
    let mut writes = vec![
        Write::InsertEntry(entry.clone()),
        Write::InsertUsage(row.clone()),
        write_tip(lane_name, Some(response_entry_id.clone())),
    ];
    let ghost head = seq![
        WriteView::InsertEntry(entry.deep_view()),
        WriteView::InsertUsage(row.deep_view()),
        tip_write(lane, Some(id)),
    ];
    assert(writes.deep_view() =~= head);
    let ghost first_events = seq![
        PlannedEventView::Added {
            entry: entry.deep_view(),
            write_index: 0,
            lane,
            recovery: Some(recovery),
        },
        PlannedEventView::Ledger { row: row.deep_view(), write_index: 1, lane },
    ];
    let mut events = vec![
        PlannedEvent::Added {
            entry,
            write_index: 0,
            lane: lane_name.clone(),
            recovery: Some(recovery),
        },
        PlannedEvent::Ledger { row, write_index: 1, lane: lane_name.clone() },
    ];
    assert(events.deep_view() =~= first_events);
    let patch = Some(
        LanePatch {
            tip_id: Some(Some(response_entry_id.clone())),
            configuration: None,
            inbox: None,
        },
    );
    match settlement.disposition {
        Disposition::Next(next) => {
            let drop_frames = Write::DeleteList {
                address: Address::PendingAssistantFrames {
                    operation_id: operation_id.clone(),
                    response_entry_id: response_entry_id.clone(),
                },
            };
            let ghost moved = head.push(drop_frames.deep_view());
            writes.push(drop_frames);
            assert(writes.deep_view() =~= moved);
            let compacts = matches!(next, OperationState::SummaryDeciding { .. });
            if compacts {
                if let Some(due) = due {
                    let ghost due_view = due.deep_view();
                    writes.push(write_preparation(operation_id, &due.task_id, due.preparation));
                    assert(writes.deep_view() =~= moved.push(preparation_write(op, due_view)));
                }
            }
            OperationCommand::Commit {
                writes,
                operation_state: next,
                lane: patch,
                result: ProcedureResult::Continue,
                events,
            }
        },
        Disposition::Failed(error) => {
            let record = operation_result_record(
                meta,
                TerminalStatus::Failed,
                Some(response_entry_id.clone()),
                Some(error.clone()),
                ended_at,
            );
            append_all(&mut writes, operation_cleanup_writes(operation_id, current, scratch));
            let end = PlannedEvent::Ready(
                HarnessEvent::RunEnd {
                    lane: lane_name.clone(),
                    run_id: operation_id.clone(),
                    from_tip_id: meta.source_tip_id.clone(),
                    tip_id: Some(response_entry_id.clone()),
                    ended_at,
                    status: TerminalStatus::Failed,
                    error: Some(error),
                    recovery: None,
                },
            );
            events.push(end);
            assert(events.deep_view() =~= first_events.push(end.deep_view()));
            OperationCommand::Finish {
                writes,
                record: record.clone(),
                lane: patch,
                result: ProcedureResult::Settled { outcome: record },
                events,
            }
        },
    }
}

/// The commit that a response leads to.
pub open spec fn response_command(
    lane: Seq<char>,
    operation_id: Seq<char>,
    intent: OperationStateView,
    tip_id: Option<Seq<char>>,
    current: OperationStateView,
    meta: OperationMetaView,
    response: AssistantMessageView,
    recovery: bool,
    overflow: bool,
    due: Option<DueCompactionView>,
    retryable: bool,
    not_before: u64,
    call_ids: Seq<Seq<char>>,
    scratch: Seq<AddressView>,
    ended_at: u64,
) -> Result<OperationCommandView<ProcedureResultView>, Seq<char>> {
    match settlement(
        current,
        reserved_response(intent),
        response,
        overflow,
        due,
        recovery || retryable,
        not_before,
        call_ids,
    ) {
        Err(message) => Err(message),
        Ok(settlement) => Ok(
            recorded(
                lane,
                operation_id,
                reserved_response(intent),
                reserved_usage(intent),
                tip_id,
                current,
                meta,
                settlement,
                due,
                recovery,
                scratch,
                ended_at,
            ),
        ),
    }
}

/// Classifies and settles the response to an effect in one commit. An
/// interrupted generation counts as retryable. `delay_ms` is how long a retry
/// waits from now.
pub fn publish_response(
    lane_name: &String,
    operation_id: &String,
    intent: &OperationState,
    state: &LaneRuntimeState,
    current: &OperationState,
    meta: &OperationMeta,
    response: &AssistantMessage,
    recovery: bool,
    overflow: bool,
    due: Option<DueCompaction>,
    retryable: bool,
    delay_ms: u64,
    now: u64,
    call_ids: &Vec<String>,
    scratch: Vec<Address>,
    ended_at: u64,
) -> (r: Result<OperationCommand<ProcedureResult>, String>)
    requires
        is_answer(current.deep_view(), response.deep_view(), overflow) ==> call_ids.len()
            == call_indices(response.deep_view().content).len(),
    ensures
        match response_command(
            lane_name@,
            operation_id@,
            intent.deep_view(),
            state.tip_id.deep_view(),
            current.deep_view(),
            meta.deep_view(),
            response.deep_view(),
            recovery,
            overflow,
            due.deep_view(),
            retryable,
            resume_time(delay_ms, now),
            call_ids.deep_view(),
            scratch.deep_view(),
            ended_at,
        ) {
            Ok(command) => r is Ok && r->Ok_0.deep_view() == command,
            Err(message) => r is Err && r->Err_0@ == message,
        },
{
    let response_entry_id = intent_response_entry_id(intent);
    match settle_response(
        current,
        &response_entry_id,
        response,
        overflow,
        &due,
        recovery || retryable,
        retry_not_before(delay_ms, now),
        call_ids,
    ) {
        Err(message) => Err(message),
        Ok(settlement) => Ok(
            record_settlement(
                lane_name,
                operation_id,
                &response_entry_id,
                intent_usage_id(intent),
                state.tip_id.clone(),
                current,
                meta,
                settlement,
                due,
                recovery,
                scratch,
                ended_at,
            ),
        ),
    }
}

/// The commit that fails a run whose configuration cannot be served.
pub open spec fn configuration_failure(
    lane: Seq<char>,
    operation_id: Seq<char>,
    tip_id: Option<Seq<char>>,
    current: OperationStateView,
    meta: OperationMetaView,
    error: OperationErrorView,
    scratch: Seq<AddressView>,
    ended_at: u64,
) -> OperationCommandView<ProcedureResultView> {
    let record = result_record(meta, TerminalStatus::Failed, tip_id, Some(error), ended_at);
    OperationCommandView::Finish {
        writes: cleanup(operation_id, current, scratch),
        record,
        lane: Some(LanePatchView { tip_id: Some(tip_id), configuration: None, inbox: None }),
        result: ProcedureResultView::Settled { outcome: record },
        events: seq![
            run_end(
                lane,
                operation_id,
                meta,
                tip_id,
                ended_at,
                TerminalStatus::Failed,
                Some(error),
            ),
        ],
    }
}

/// Fails a run whose configuration cannot be served.
pub fn publish_configuration_failure(
    lane_name: &String,
    operation_id: &String,
    state: &LaneRuntimeState,
    current: &OperationState,
    meta: &OperationMeta,
    error: OperationError,
    scratch: Vec<Address>,
    ended_at: u64,
) -> (r: OperationCommand<ProcedureResult>)
    requires
        state.tip_id is Some,
    ensures
        r.deep_view() == configuration_failure(
            lane_name@,
            operation_id@,
            state.tip_id.deep_view(),
            current.deep_view(),
            meta.deep_view(),
            error.deep_view(),
            scratch.deep_view(),
            ended_at,
        ),
{
    let record = operation_result_record(
        meta,
        TerminalStatus::Failed,
        state.tip_id.clone(),
        Some(error.clone()),
        ended_at,
    );
    let end = PlannedEvent::Ready(
        HarnessEvent::RunEnd {
            lane: lane_name.clone(),
            run_id: operation_id.clone(),
            from_tip_id: meta.source_tip_id.clone(),
            tip_id: state.tip_id.clone(),
            ended_at,
            status: TerminalStatus::Failed,
            error: Some(error),
            recovery: None,
        },
    );
    let ghost end_view = end.deep_view();
    let events = vec![end];
    assert(events.deep_view() =~= seq![end_view]);
    OperationCommand::Finish {
        writes: operation_cleanup_writes(operation_id, current, scratch),
        record: record.clone(),
        lane: Some(
            LanePatch { tip_id: Some(state.tip_id.clone()), configuration: None, inbox: None },
        ),
        result: ProcedureResult::Settled { outcome: record },
        events,
    }
}

/// A settled response is the latest of its run, is committed once, and its run
/// either goes on to a leaf of a run or fails.
pub proof fn law_a_settled_response_is_the_latest(
    current: OperationStateView,
    response_entry_id: Seq<char>,
    response: AssistantMessageView,
    overflow: bool,
    due: Option<DueCompactionView>,
    retryable: bool,
    not_before: u64,
    call_ids: Seq<Seq<char>>,
    prompt_entry_ids: Seq<Seq<char>>,
    next: OperationStateView,
)
    requires
        settlement(
            current,
            response_entry_id,
            response,
            overflow,
            due,
            retryable,
            not_before,
            call_ids,
        ) matches Ok(settlement) && settlement.disposition == DispositionView::Next(next),
    ensures
        next.deferred_scope() matches Some(scope) ==> scope.latest_assistant_entry_id == Some(
            response_entry_id,
        ),
        next.deferred_scope() is None ==> next.scope().latest_assistant_entry_id == Some(
            response_entry_id,
        ),
        next.control() == current.control(),
        matches_intent(OperationIntentView::Run { prompt_entry_ids }, next),
{
}

/// A run recovers from overflow at most once: a generation that follows such a
/// recovery is never compacted again for overflow, and what resumes after one
/// remembers it.
pub proof fn law_overflow_is_recovered_once(
    current: OperationStateView,
    response_entry_id: Seq<char>,
    response: AssistantMessageView,
    overflow: bool,
    due: Option<DueCompactionView>,
    retryable: bool,
    not_before: u64,
    call_ids: Seq<Seq<char>>,
    scope: OperationScopeView,
    task: SummaryTaskView,
)
    requires
        settlement(
            current,
            response_entry_id,
            response,
            overflow,
            due,
            retryable,
            not_before,
            call_ids,
        ) matches Ok(settlement) && settlement.disposition == DispositionView::Next(
            OperationStateView::SummaryDeciding { scope, task },
        ),
    ensures
        overflow,
        !recovered_before(current),
        task.boundary matches ResultBoundaryView::ResumeCheckpoint { resume_after }
            && resume_after.continuation == (Continuation::NeedAssistant {
            overflow_recovery_used: true,
        }),
{
}

/// A generation is retried only while attempts are left, and each retry counts
/// as one more attempt.
pub proof fn law_retries_are_bounded(
    current: OperationStateView,
    response_entry_id: Seq<char>,
    response: AssistantMessageView,
    overflow: bool,
    due: Option<DueCompactionView>,
    retryable: bool,
    not_before: u64,
    call_ids: Seq<Seq<char>>,
    next: OperationStateView,
)
    requires
        settlement(
            current,
            response_entry_id,
            response,
            overflow,
            due,
            retryable,
            not_before,
            call_ids,
        ) matches Ok(settlement) && settlement.disposition == DispositionView::Next(next),
        next is AssistantRetryWait,
    ensures
        retryable,
        current matches OperationStateView::AssistantEffectPending {
            attempt,
            generation_context,
            ..
        } && (next matches OperationStateView::AssistantRetryWait {
            next_attempt,
            generation_context: again,
            ..
        } && next_attempt == attempt + 1 && next_attempt
            <= generation_context.retry_policy.max_attempts && again == generation_context),
{
}

/// A response to a cancelled effect is committed as aborted, and starts nothing.
pub proof fn law_cancelled_effects_settle_as_aborted(
    current: OperationStateView,
    response_entry_id: Seq<char>,
    response: AssistantMessageView,
    overflow: bool,
    due: Option<DueCompactionView>,
    retryable: bool,
    not_before: u64,
    call_ids: Seq<Seq<char>>,
)
    requires
        current is AssistantEffectPending || current is DeferredEffectPending,
        current.cancelled(),
    ensures
        settlement(
            current,
            response_entry_id,
            response,
            overflow,
            due,
            retryable,
            not_before,
            call_ids,
        ) matches Ok(settlement) && settlement.committed.stop_reason == StopReason::Aborted
            && settlement.committed.content == response.content && (settlement.disposition
            matches DispositionView::Next(next) && next is Checkpoint && next.cancelled()),
{
}

/// Settling a response keeps the lane in step with storage.
pub proof fn law_settling_a_response_keeps_step(
    store: Map<AddressView, DurableValueView>,
    lane: Seq<char>,
    state: LaneRuntimeStateView,
    intent: OperationStateView,
    response: AssistantMessageView,
    recovery: bool,
    overflow: bool,
    due: Option<DueCompactionView>,
    retryable: bool,
    not_before: u64,
    call_ids: Seq<Seq<char>>,
    scratch: Seq<AddressView>,
    ended_at: u64,
)
    requires
        in_step(store, lane, state),
        state.operation matches Some(operation) && operation.meta.intent is Run,
        forall|i: int| 0 <= i < scratch.len() ==> is_scratch(#[trigger] scratch[i]),
    ensures
        ({
            let operation = state.operation->Some_0;
            response_command(
                lane,
                operation.meta.operation_id,
                intent,
                state.tip_id,
                operation.state,
                operation.meta,
                response,
                recovery,
                overflow,
                due,
                retryable,
                not_before,
                call_ids,
                scratch,
                ended_at,
            ) matches Ok(command) ==> safe_decision(store, lane, state, command) && keeps_step(
                store,
                lane,
                settled(lane, state, command),
            )
        }),
{
    let operation = state.operation->Some_0;
    let operation_id = operation.meta.operation_id;
    let id = reserved_response(intent);
    let outcome = settlement(
        operation.state,
        id,
        response,
        overflow,
        due,
        recovery || retryable,
        not_before,
        call_ids,
    );
    if let Ok(settlement) = outcome {
        let entry = response_entry(id, state.tip_id, settlement.committed);
        let row = response_usage(reserved_usage(intent), id, settlement.committed);
        let inserted = seq![WriteView::InsertEntry(entry), WriteView::InsertUsage(row)];
        let tip = tip_write(lane, Some(id));
        let head = seq![WriteView::InsertEntry(entry), WriteView::InsertUsage(row), tip];
        assert(head =~= inserted.push(tip));
        lemma_committed_push(store, inserted, tip);
        let tip_address = AddressView::BranchTip { lane };
        let config_address = AddressView::LaneConfig { lane };
        assert(spares(inserted, config_address));
        lemma_spared(store, inserted, config_address);
        let command = recorded(
            lane,
            operation_id,
            id,
            reserved_usage(intent),
            state.tip_id,
            operation.state,
            operation.meta,
            settlement,
            due,
            recovery,
            scratch,
            ended_at,
        );
        match command {
            OperationCommandView::Commit { writes, operation_state, .. } => {
                let rest = writes.skip(3);
                assert(writes =~= head + rest);
                lemma_committed_concat(store, head, rest);
                assert(spares(rest, tip_address));
                assert(spares(rest, config_address));
                lemma_spared(committed(store, head), rest, tip_address);
                lemma_spared(committed(store, head), rest, config_address);
                assert(spares(writes, AddressView::LaneState { lane }));
                assert(spares(writes, AddressView::OperationMeta { operation_id }));
                assert(matches_intent(operation.meta.intent, operation_state));
            },
            OperationCommandView::Finish { writes, .. } => {
                let rest = cleanup(operation_id, operation.state, scratch);
                lemma_committed_concat(store, head, rest);
                lemma_cleanup_spares(operation_id, operation.state, scratch, tip_address);
                lemma_cleanup_spares(operation_id, operation.state, scratch, config_address);
                lemma_spared(committed(store, head), rest, tip_address);
                lemma_spared(committed(store, head), rest, config_address);
            },
            _ => {},
        }
        law_settling_keeps_step(store, lane, state, command);
    }
}

/// Failing a run for its configuration keeps the lane in step with storage.
pub proof fn law_configuration_failures_keep_step(
    store: Map<AddressView, DurableValueView>,
    lane: Seq<char>,
    state: LaneRuntimeStateView,
    error: OperationErrorView,
    scratch: Seq<AddressView>,
    ended_at: u64,
)
    requires
        in_step(store, lane, state),
        state.operation is Some,
        forall|i: int| 0 <= i < scratch.len() ==> is_scratch(#[trigger] scratch[i]),
    ensures
        ({
            let operation = state.operation->Some_0;
            let command = configuration_failure(
                lane,
                operation.meta.operation_id,
                state.tip_id,
                operation.state,
                operation.meta,
                error,
                scratch,
                ended_at,
            );
            safe_decision(store, lane, state, command) && keeps_step(
                store,
                lane,
                settled(lane, state, command),
            )
        }),
{
    let operation = state.operation->Some_0;
    let operation_id = operation.meta.operation_id;
    let writes = cleanup(operation_id, operation.state, scratch);
    lemma_cleanup_spares(
        operation_id,
        operation.state,
        scratch,
        AddressView::BranchTip { lane },
    );
    lemma_cleanup_spares(
        operation_id,
        operation.state,
        scratch,
        AddressView::LaneConfig { lane },
    );
    lemma_spared(store, writes, AddressView::BranchTip { lane });
    lemma_spared(store, writes, AddressView::LaneConfig { lane });
    law_settling_keeps_step(
        store,
        lane,
        state,
        configuration_failure(
            lane,
            operation_id,
            state.tip_id,
            operation.state,
            operation.meta,
            error,
            scratch,
            ended_at,
        ),
    );
}

} // verus!
