//! The life of a response while it comes in: what observers are told of it, and
//! what hooks may put in the place of what is sent and of what came back.

use crate::json::{member, member_of, Json};
use crate::model::event::{
    HarnessEvent, HarnessEventView, LaneOperationSnapshotView, LaneSnapshotView,
};
use crate::model::message::{
    AgentMessage, AgentMessageView, AgentToolResult, AgentToolResultView, AssistantMessage,
    AssistantMessageView, ToolCallBlock, ToolCallBlockView,
};
use crate::reducer::{is_current, reduced};
use vstd::prelude::*;

verus! {

/// Tells observers of one response.
#[derive(Debug, PartialEq, Eq)]
pub struct ResponseObserver {
    pub lane_name: String,
    pub run_id: String,
    pub recovery: bool,
    pub response_entry_id: String,
}

/// Contents of a [`ResponseObserver`].
pub struct ResponseObserverView {
    pub lane_name: Seq<char>,
    pub run_id: Seq<char>,
    pub recovery: bool,
    pub response_entry_id: Seq<char>,
}

impl DeepView for ResponseObserver {
    type V = ResponseObserverView;

    open spec fn deep_view(&self) -> ResponseObserverView {
        ResponseObserverView {
            lane_name: self.lane_name@,
            run_id: self.run_id@,
            recovery: self.recovery,
            response_entry_id: self.response_entry_id@,
        }
    }
}

impl ResponseObserverView {
    /// What observers are told when a response starts.
    pub open spec fn started(self, message: AssistantMessageView) -> HarnessEventView {
        HarnessEventView::MessageStart {
            lane: self.lane_name,
            run_id: Some(self.run_id),
            message: AgentMessageView::Assistant(message),
            recovery: Some(self.recovery),
        }
    }

    /// What observers are told when more of a response is there.
    pub open spec fn updated(
        self,
        message: AssistantMessageView,
        event: serde_json::Value,
        frame: Option<serde_json::Value>,
    ) -> HarnessEventView {
        HarnessEventView::MessageUpdate {
            lane: self.lane_name,
            run_id: self.run_id,
            message: AgentMessageView::Assistant(message),
            event,
            frame,
            recovery: Some(self.recovery),
        }
    }

    /// What observers are told when a response is complete.
    pub open spec fn ended(self, message: AssistantMessageView) -> HarnessEventView {
        HarnessEventView::MessageEnd {
            lane: self.lane_name,
            run_id: Some(self.run_id),
            message: AgentMessageView::Assistant(message),
            entry_id: Some(self.response_entry_id),
            recovery: Some(self.recovery),
        }
    }
}

impl ResponseObserver {
    /// Announces that a response starts.
    pub fn start(&self, message: AssistantMessage) -> (r: HarnessEvent)
        ensures
            r.deep_view() == self.deep_view().started(message.deep_view()),
    {
        HarnessEvent::MessageStart {
            lane: self.lane_name.clone(),
            run_id: Some(self.run_id.clone()),
            message: AgentMessage::Assistant(message),
            recovery: Some(self.recovery),
        }
    }

    /// Announces that more of a response is there.
    pub fn update(&self, message: AssistantMessage, event: Json, frame: Option<Json>) -> (r:
        HarnessEvent)
        ensures
            r.deep_view() == self.deep_view().updated(
                message.deep_view(),
                event.deep_view(),
                frame.deep_view(),
            ),
    {
        HarnessEvent::MessageUpdate {
            lane: self.lane_name.clone(),
            run_id: self.run_id.clone(),
            message: AgentMessage::Assistant(message),
            event,
            frame,
            recovery: Some(self.recovery),
        }
    }

    /// Announces that a response is complete.
    pub fn end(&self, message: AssistantMessage) -> (r: HarnessEvent)
        ensures
            r.deep_view() == self.deep_view().ended(message.deep_view()),
    {
        HarnessEvent::MessageEnd {
            lane: self.lane_name.clone(),
            run_id: Some(self.run_id.clone()),
            message: AgentMessage::Assistant(message),
            entry_id: Some(self.response_entry_id.clone()),
            recovery: Some(self.recovery),
        }
    }
}

/// Whoever watches a run sees a response as far as it came in, and nothing of it
/// once it is complete. The rest of what they see stays.
pub proof fn law_observers_see_a_response_come_in(
    snapshot: LaneSnapshotView,
    observer: ResponseObserverView,
    message: AssistantMessageView,
    event: serde_json::Value,
    frame: Option<serde_json::Value>,
)
    requires
        is_current(snapshot, observer.run_id),
        snapshot.lane == observer.lane_name,
    ensures
        ({
            let during = reduced(snapshot, observer.updated(message, event, frame));
            let after = reduced(during, observer.ended(message));
            let operation = snapshot.operation->Some_0;
            &&& during == LaneSnapshotView {
                operation: Some(
                    LaneOperationSnapshotView {
                        streaming_message: Some(message),
                        ..operation
                    },
                ),
                ..snapshot
            }
            &&& after == LaneSnapshotView {
                operation: Some(
                    LaneOperationSnapshotView {
                        streaming_message: None,
                        ..operation
                    },
                ),
                ..snapshot
            }
        }),
{
}

/// The event that shows what a running tool put out so far.
pub open spec fn tool_shown(
    lane: Seq<char>,
    run_id: Seq<char>,
    turn_id: Seq<char>,
    call: ToolCallBlockView,
    partial: AgentToolResultView,
    recovery: bool,
) -> HarnessEventView {
    HarnessEventView::ToolUpdate {
        lane,
        run_id,
        turn_id,
        tool_call_id: call.id,
        tool_name: call.name,
        partial_result: partial,
        recovery: Some(recovery),
    }
}

/// Shows what a running tool put out so far.
pub fn publish_update(
    lane_name: &String,
    operation_id: &String,
    turn_id: &String,
    call: &ToolCallBlock,
    partial: AgentToolResult,
    recovery: bool,
) -> (r: HarnessEvent)
    ensures
        r.deep_view() == tool_shown(
            lane_name@,
            operation_id@,
            turn_id@,
            call.deep_view(),
            partial.deep_view(),
            recovery,
        ),
{
    HarnessEvent::ToolUpdate {
        lane: lane_name.clone(),
        run_id: operation_id.clone(),
        turn_id: turn_id.clone(),
        tool_call_id: call.id.clone(),
        tool_name: call.name.clone(),
        partial_result: partial,
        recovery: Some(recovery),
    }
}

/// Reads the messages that a hook puts in the place of the context.
pub fn replaced_messages(hook: &Json) -> (r: Option<Json>)
    ensures
        r.deep_view() == member_of(hook.deep_view(), "messages"@),
{
    member(hook, "messages")
}

/// Reads what a hook puts in the place of the payload of a request.
pub fn replaced_payload(hook: &Json) -> (r: Option<Json>)
    ensures
        r.deep_view() == member_of(hook.deep_view(), "payload"@),
{
    member(hook, "payload")
}

/// Reads the message that a hook puts in the place of a response.
pub fn replaced_response(hook: &Json) -> (r: Option<Json>)
    ensures
        r.deep_view() == member_of(hook.deep_view(), "message"@),
{
    member(hook, "message")
}

} // verus!
