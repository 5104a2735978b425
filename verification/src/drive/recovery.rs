//! Recovering an effect whose response was lost.

use crate::json::Json;
use crate::model::event::{HarnessEvent, HarnessEventView};
use crate::model::message::{
    AgentMessage, AgentMessageView, AssistantMessage, AssistantMessageView, ContentBlock,
    StopReason, Usage, UsageView,
};
use crate::model::session::{ModelIdentity, ModelIdentityView, OperationState, OperationStateView};
use vstd::prelude::*;

verus! {

/// The usage of a request that reported none. `cost` is a cost of zero.
pub open spec fn no_usage(cost: serde_json::Value) -> UsageView {
    UsageView {
        input: 0,
        output: 0,
        cache_read: 0,
        cache_write: 0,
        cache_write_1h: None,
        reasoning: None,
        total_tokens: 0,
        cost,
    }
}

/// Makes the usage of a request that reported none.
pub fn zero_usage(cost: Json) -> (r: Usage)
    ensures
        r.deep_view() == no_usage(cost.deep_view()),
{
    Usage {
        input: 0,
        output: 0,
        cache_read: 0,
        cache_write: 0,
        cache_write_1h: None,
        reasoning: None,
        total_tokens: 0,
        cost,
    }
}

/// The text that warns of an interrupted response.
pub open spec fn interruption_warning() -> Seq<char> {
    "Assistant request was interrupted. The preceding content is the latest committed partial; newer live output may be missing and the external outcome is unknown."@
}

/// What stands for a response that was interrupted: an error with what had been
/// committed of it.
pub open spec fn interrupted_response(
    identity: ModelIdentityView,
    partial: Option<AssistantMessageView>,
    cost: serde_json::Value,
    timestamp: u64,
) -> AssistantMessageView {
    match partial {
        Some(partial) => AssistantMessageView {
            usage: no_usage(cost),
            stop_reason: StopReason::Error,
            error_message: Some(interruption_warning()),
            ..partial
        },
        None => AssistantMessageView {
            content: Seq::empty(),
            api: "unknown"@,
            provider: identity.provider,
            model: identity.model_id,
            response_model: None,
            response_id: None,
            provider_thinking_level: None,
            usage: no_usage(cost),
            stop_reason: StopReason::Error,
            deferred: None,
            error_message: Some(interruption_warning()),
            raw_stop_reason: None,
            end_turn: None,
            timestamp,
        },
    }
}

/// Makes what stands for a response that was interrupted. `partial` is what the
/// committed frames add up to.
pub fn interrupted_assistant_message(
    identity: &ModelIdentity,
    partial: Option<AssistantMessage>,
    cost: Json,
    timestamp: u64,
) -> (r: AssistantMessage)
    ensures
        r.deep_view() == interrupted_response(
            identity.deep_view(),
            partial.deep_view(),
            cost.deep_view(),
            timestamp,
        ),
{
    let warning = "Assistant request was interrupted. The preceding content is the latest committed partial; newer live output may be missing and the external outcome is unknown.".to_string();
    match partial {
        Some(mut partial) => {
            partial.usage = zero_usage(cost);
            partial.stop_reason = StopReason::Error;
            partial.error_message = Some(warning);
            partial
        },
        None => {
            let content: Vec<ContentBlock> = Vec::new();
            assert(content.deep_view() =~= Seq::empty());
            AssistantMessage {
                content,
                api: "unknown".to_string(),
                provider: identity.provider.clone(),
                model: identity.model_id.clone(),
                response_model: None,
                response_id: None,
                provider_thinking_level: None,
                usage: zero_usage(cost),
                stop_reason: StopReason::Error,
                deferred: None,
                error_message: Some(warning),
                raw_stop_reason: None,
                end_turn: None,
                timestamp,
            }
        },
    }
}

/// The model an effect was requested from.
pub open spec fn effect_model(effect: OperationStateView) -> Option<ModelIdentityView> {
    match effect {
        OperationStateView::AssistantEffectPending { generation_context, .. } => Some(
            generation_context.configuration.model,
        ),
        OperationStateView::DeferredEffectPending { scope, .. } => Some(
            scope.configuration.model,
        ),
        _ => None,
    }
}

/// Gives the model an effect was requested from.
pub fn effect_identity(effect: &OperationState) -> (r: Option<ModelIdentity>)
    ensures
        r.deep_view() == effect_model(effect.deep_view()),
{
    match effect {
        OperationState::AssistantEffectPending { generation_context, .. } => Some(
            generation_context.configuration.model.clone(),
        ),
        OperationState::DeferredEffectPending { scope, .. } => Some(
            scope.configuration.model.clone(),
        ),
        _ => None,
    }
}

/// The events that announce a recovered response.
pub open spec fn recovered_events(
    lane: Seq<char>,
    operation_id: Seq<char>,
    response_entry_id: Seq<char>,
    message: AssistantMessageView,
) -> Seq<HarnessEventView> {
    seq![
        HarnessEventView::MessageStart {
            lane,
            run_id: Some(operation_id),
            message: AgentMessageView::Assistant(message),
            recovery: Some(true),
        },
        HarnessEventView::MessageEnd {
            lane,
            run_id: Some(operation_id),
            message: AgentMessageView::Assistant(message),
            entry_id: Some(response_entry_id),
            recovery: Some(true),
        },
    ]
}

/// Announces a recovered response.
pub fn announce_recovered(
    lane_name: &String,
    operation_id: &String,
    response_entry_id: &String,
    message: &AssistantMessage,
) -> (r: Vec<HarnessEvent>)
    ensures
        r.deep_view() == recovered_events(
            lane_name@,
            operation_id@,
            response_entry_id@,
            message.deep_view(),
        ),
{
    let events = vec![
        HarnessEvent::MessageStart {
            lane: lane_name.clone(),
            run_id: Some(operation_id.clone()),
            message: AgentMessage::Assistant(message.clone()),
            recovery: Some(true),
        },
        HarnessEvent::MessageEnd {
            lane: lane_name.clone(),
            run_id: Some(operation_id.clone()),
            message: AgentMessage::Assistant(message.clone()),
            entry_id: Some(response_entry_id.clone()),
            recovery: Some(true),
        },
    ];
    assert(events.deep_view() =~= recovered_events(
        lane_name@,
        operation_id@,
        response_entry_id@,
        message.deep_view(),
    ));
    events
}

} // verus!
