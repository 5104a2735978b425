//! What events change in a snapshot, and what they leave.

use crate::model::event::{
    ConfigUpdatePayloadView, DeferredSnapshotView, HarnessEventView, LaneOperationSnapshotView,
    LaneSnapshotToolView, LaneSnapshotView, RetrySnapshot,
};
use crate::model::message::{AgentMessageView, StopReason};
use crate::model::session::{LaneConfigurationView, OperationIntentView, OperationResultRecordView};
use crate::model::storage::{EntryView, SessionStatsView};
use crate::reducer::{one_tool_per_call, reduced, tool_place};
use vstd::prelude::*;

verus! {

/// Whether an event is about the operation that a snapshot shows.
pub open spec fn is_about(snapshot: LaneSnapshotView, lane: Seq<char>, id: Seq<char>) -> bool {
    snapshot.lane == lane && (snapshot.operation matches Some(operation) && operation.id == id)
}

/// A snapshot with another picture of its operation.
pub open spec fn showing(
    snapshot: LaneSnapshotView,
    operation: LaneOperationSnapshotView,
) -> LaneSnapshotView {
    LaneSnapshotView { operation: Some(operation), ..snapshot }
}

/// An operation that starts is shown from there on, open and from the tip of the lane,
/// with nothing under way. A compaction within an operation is not shown as one.
pub proof fn law_a_start_shows_the_operation(
    snapshot: LaneSnapshotView,
    run_id: Seq<char>,
    reason: Seq<char>,
    started_at: u64,
    recovery: Option<bool>,
)
    ensures
        ({
            let lane = snapshot.lane;
            let begun = |kind: Seq<char>|
                showing(
                    snapshot,
                    LaneOperationSnapshotView {
                        id: run_id,
                        kind,
                        started_at,
                        from_tip_id: snapshot.tip_id,
                        status: "open"@,
                        retry: None,
                        deferred: None,
                        streaming_message: None,
                        running_tools: Seq::empty(),
                    },
                );
            &&& reduced(snapshot, HarnessEventView::RunStart { lane, run_id, started_at, recovery })
                == begun("run"@)
            &&& reduced(
                snapshot,
                HarnessEventView::CompactionStart { lane, run_id, reason, started_at, recovery },
            ) == if snapshot.operation is Some {
                snapshot
            } else {
                begun("compaction"@)
            }
        }),
{
}

/// A navigation that starts is shown likewise.
pub proof fn law_a_start_of_a_navigation_shows_it(
    snapshot: LaneSnapshotView,
    event: HarnessEventView,
)
    requires
        event is NavigationStart,
        event.lane() == Some(snapshot.lane),
    ensures
        reduced(snapshot, event) == showing(
            snapshot,
            LaneOperationSnapshotView {
                id: event->NavigationStart_run_id,
                kind: "navigation"@,
                started_at: event->NavigationStart_started_at,
                from_tip_id: snapshot.tip_id,
                status: "open"@,
                retry: None,
                deferred: None,
                streaming_message: None,
                running_tools: Seq::empty(),
            },
        ),
{
}

/// What is shown of the operation under way changes only by events about it: that it is
/// to stop; that it waits for a retry, or no longer does; that its answer was put off, or
/// is asked for again. Everything else that is shown stays.
pub proof fn law_the_picture_of_an_operation_follows_its_events(
    snapshot: LaneSnapshotView,
    event: HarnessEventView,
)
    requires
        event is OperationAbort || event is RunResume || event is RunSuspend || event
            is RetryScheduled || event is RetryStart || event is RetryEnd,
    ensures
        match event {
            HarnessEventView::OperationAbort { lane, operation_id, .. } => reduced(snapshot, event)
                == if is_about(snapshot, lane, operation_id) {
                showing(
                    snapshot,
                    LaneOperationSnapshotView {
                        status: "aborting"@,
                        ..snapshot.operation->Some_0
                    },
                )
            } else {
                snapshot
            },
            HarnessEventView::RunResume { lane, run_id, .. } => reduced(snapshot, event)
                == if is_about(snapshot, lane, run_id) {
                showing(
                    snapshot,
                    LaneOperationSnapshotView { deferred: None, ..snapshot.operation->Some_0 },
                )
            } else {
                snapshot
            },
            HarnessEventView::RunSuspend { lane, run_id, deferred, poll, .. } => reduced(
                snapshot,
                event,
            ) == if is_about(snapshot, lane, run_id) {
                showing(
                    snapshot,
                    LaneOperationSnapshotView {
                        streaming_message: None,
                        deferred: Some(DeferredSnapshotView { handle: deferred, poll }),
                        ..snapshot.operation->Some_0
                    },
                )
            } else {
                snapshot
            },
            HarnessEventView::RetryScheduled {
                lane,
                run_id,
                attempt,
                max_attempts,
                not_before,
                ..
            } => reduced(snapshot, event) == if is_about(snapshot, lane, run_id) {
                showing(
                    snapshot,
                    LaneOperationSnapshotView {
                        retry: Some(
                            RetrySnapshot { attempt, max_attempts, next_attempt_at: not_before },
                        ),
                        ..snapshot.operation->Some_0
                    },
                )
            } else {
                snapshot
            },
            HarnessEventView::RetryStart { lane, run_id, .. } => reduced(snapshot, event)
                == if is_about(snapshot, lane, run_id) {
                showing(
                    snapshot,
                    LaneOperationSnapshotView { retry: None, ..snapshot.operation->Some_0 },
                )
            } else {
                snapshot
            },
            HarnessEventView::RetryEnd { lane, run_id, .. } => reduced(snapshot, event)
                == if is_about(snapshot, lane, run_id) {
                showing(
                    snapshot,
                    LaneOperationSnapshotView { retry: None, ..snapshot.operation->Some_0 },
                )
            } else {
                snapshot
            },
            _ => false,
        },
{
}

/// A response is shown as far as it came in: from its start if it is still pending, with
/// each update, and no longer once it ended. Messages of others than the assistant are not
/// shown that way.
pub proof fn law_a_response_is_shown_as_it_comes_in(
    snapshot: LaneSnapshotView,
    event: HarnessEventView,
)
    requires
        event is MessageStart || event is MessageUpdate || event is MessageEnd,
    ensures
        match event {
            HarnessEventView::MessageStart { lane, run_id, message, .. } => {
                if run_id is Some && is_about(snapshot, lane, run_id->Some_0) && (message
                    matches AgentMessageView::Assistant(shown) && shown.stop_reason
                    == StopReason::Pending) {
                    reduced(snapshot, event) == showing(
                        snapshot,
                        LaneOperationSnapshotView {
                            streaming_message: Some(message->Assistant_0),
                            ..snapshot.operation->Some_0
                        },
                    )
                } else {
                    reduced(snapshot, event) == snapshot
                }
            },
            HarnessEventView::MessageUpdate { lane, run_id, message, .. } => {
                if is_about(snapshot, lane, run_id) && message is Assistant {
                    reduced(snapshot, event) == showing(
                        snapshot,
                        LaneOperationSnapshotView {
                            streaming_message: Some(message->Assistant_0),
                            ..snapshot.operation->Some_0
                        },
                    )
                } else {
                    reduced(snapshot, event) == snapshot
                }
            },
            HarnessEventView::MessageEnd { lane, run_id, .. } => {
                if run_id is Some && is_about(snapshot, lane, run_id->Some_0) {
                    reduced(snapshot, event) == showing(
                        snapshot,
                        LaneOperationSnapshotView {
                            streaming_message: None,
                            ..snapshot.operation->Some_0
                        },
                    )
                } else {
                    reduced(snapshot, event) == snapshot
                }
            },
            _ => false,
        },
{
}

/// The call of a tool that is shown.
pub open spec fn call_of(tool: LaneSnapshotToolView) -> Seq<char> {
    match tool {
        LaneSnapshotToolView::Running { tool_call_id, .. } => tool_call_id,
        LaneSnapshotToolView::Settled { tool_call_id, .. } => tool_call_id,
    }
}

/// The arguments of a tool that is shown.
pub open spec fn args_of(tool: LaneSnapshotToolView) -> serde_json::Value {
    match tool {
        LaneSnapshotToolView::Running { args, .. } => args,
        LaneSnapshotToolView::Settled { args, .. } => args,
    }
}

proof fn lemma_tool_found(tools: Seq<LaneSnapshotToolView>, id: Seq<char>)
    ensures
        ({
            let place = tool_place(tools, id);
            &&& 0 <= place <= tools.len()
            &&& place < tools.len() ==> call_of(tools[place]) == id
            &&& place == tools.len() ==> forall|i: int|
                0 <= i < tools.len() ==> call_of(#[trigger] tools[i]) != id
        }),
    decreases tools.len(),
{
    if tools.len() > 0 {
        let rest = tools.drop_last();
        lemma_tool_found(rest, id);
        assert forall|i: int| 0 <= i < rest.len() implies rest[i] == #[trigger] tools[i] by {}
    }
}

/// What is shown of the tools of a run. A tool that starts is shown as running with its
/// arguments: in its place if it was shown, and else behind the others. Output is shown of
/// a tool that runs. A tool that ends is shown with its result, under the arguments that it
/// had. Tools of other calls stay as they are, in order.
pub proof fn law_tools_are_shown_by_their_calls(
    snapshot: LaneSnapshotView,
    event: HarnessEventView,
    k: int,
)
    requires
        match event {
            HarnessEventView::ToolStart { lane, run_id, .. } => is_about(snapshot, lane, run_id),
            HarnessEventView::ToolUpdate { lane, run_id, .. } => is_about(snapshot, lane, run_id),
            HarnessEventView::ToolEnd { lane, run_id, .. } => is_about(snapshot, lane, run_id),
            _ => false,
        },
        snapshot.operation matches Some(operation) && one_tool_per_call(operation.running_tools),
    ensures
        ({
            let before = snapshot.operation->Some_0.running_tools;
            let after = reduced(snapshot, event).operation->Some_0.running_tools;
            let id = match event {
                HarnessEventView::ToolStart { tool_call_id, .. } => tool_call_id,
                HarnessEventView::ToolUpdate { tool_call_id, .. } => tool_call_id,
                HarnessEventView::ToolEnd { tool_call_id, .. } => tool_call_id,
                _ => arbitrary(),
            };
            let known = exists|i: int| 0 <= i < before.len() && call_of(#[trigger] before[i]) == id;
            &&& reduced(snapshot, event) == showing(
                snapshot,
                LaneOperationSnapshotView {
                    running_tools: after,
                    ..snapshot.operation->Some_0
                },
            )
            &&& after.len() == if event is ToolStart && !known {
                before.len() + 1
            } else {
                before.len()
            }
            &&& 0 <= k < before.len() && call_of(before[k]) != id ==> after[k] == before[k]
            &&& 0 <= k < before.len() && call_of(before[k]) == id ==> match event {
                HarnessEventView::ToolStart { tool_call_id, tool_name, args, .. } => after[k] == (
                LaneSnapshotToolView::Running { tool_call_id, tool_name, args, result: None }),
                HarnessEventView::ToolUpdate { partial_result, .. } => match before[k] {
                    LaneSnapshotToolView::Running { tool_call_id, tool_name, args, .. } => after[k]
                        == (LaneSnapshotToolView::Running {
                        tool_call_id,
                        tool_name,
                        args,
                        result: Some(partial_result),
                    }),
                    _ => after[k] == before[k],
                },
                HarnessEventView::ToolEnd { tool_call_id, tool_name, result, is_error, .. } => {
                    after[k] == (LaneSnapshotToolView::Settled {
                        tool_call_id,
                        tool_name,
                        args: args_of(before[k]),
                        result,
                        is_error,
                    })
                },
                _ => false,
            }
            &&& !known ==> (event matches HarnessEventView::ToolStart {
                tool_call_id,
                tool_name,
                args,
                ..
            } ==> after.last() == (LaneSnapshotToolView::Running {
                tool_call_id,
                tool_name,
                args,
                result: None,
            }))
        }),
{
    let before = snapshot.operation->Some_0.running_tools;
    let id = match event {
        HarnessEventView::ToolStart { tool_call_id, .. } => tool_call_id,
        HarnessEventView::ToolUpdate { tool_call_id, .. } => tool_call_id,
        HarnessEventView::ToolEnd { tool_call_id, .. } => tool_call_id,
        _ => arbitrary(),
    };
    lemma_tool_found(before, id);
    let place = tool_place(before, id);
    if 0 <= k < before.len() && call_of(before[k]) == id {
        assert(place == k) by {
            if place < k {
                assert(before[place].call_id() != before[k].call_id());
            }
            if k < place < before.len() {
                assert(before[k].call_id() != before[place].call_id());
            }
        }
    }
    if place < before.len() {
        assert(call_of(before[place]) == id);
    }
}

/// An entry that is added is the tip, and the last of the transcript; a compaction starts
/// the transcript anew. Messages are counted. The result of a tool takes its call off what
/// is shown as running; no other tool goes.
pub proof fn law_an_added_entry_is_shown_last(
    snapshot: LaneSnapshotView,
    entry: EntryView,
    recovery: Option<bool>,
    tool: LaneSnapshotToolView,
)
    requires
        snapshot.stats.message_count < u64::MAX,
    ensures
        ({
            let event = HarnessEventView::EntryAdded { lane: snapshot.lane, entry, recovery };
            let after = reduced(snapshot, event);
            let result = match entry {
                EntryView::Message(message) => match message.message {
                    AgentMessageView::ToolResult(result) => Some(result.tool_call_id),
                    _ => None,
                },
                _ => None,
            };
            &&& after.tip_id == Some(entry.base().id)
            &&& after.transcript == if entry is Compaction {
                seq![entry]
            } else {
                snapshot.transcript.push(entry)
            }
            &&& after.stats.usage == snapshot.stats.usage
            &&& after.stats.message_count == if entry is Message {
                snapshot.stats.message_count + 1
            } else {
                snapshot.stats.message_count as int
            }
            &&& after.lane == snapshot.lane
            &&& after.queues == snapshot.queues
            &&& after.configuration == snapshot.configuration
            &&& after.last_result == snapshot.last_result
            &&& after.faulted == snapshot.faulted
            &&& match snapshot.operation {
                None => after.operation is None,
                Some(operation) => after.operation matches Some(shown) && shown == (
                LaneOperationSnapshotView { running_tools: shown.running_tools, ..operation })
                    && if result is Some {
                    shown.running_tools.contains(tool) <==> operation.running_tools.contains(tool)
                        && call_of(tool) != result->Some_0
                } else {
                    shown.running_tools == operation.running_tools
                },
            }
        }),
{
    if let Some(operation) = snapshot.operation {
        if let EntryView::Message(message) = entry {
            if let AgentMessageView::ToolResult(result) = message.message {
                let keep = |tool: LaneSnapshotToolView| tool.call_id() != result.tool_call_id;
                crate::drive::boundary::lemma_in_filter(operation.running_tools, keep, tool);
            }
        }
    }
}

/// The end of the run or of the compaction that is shown takes it off the picture and shows
/// its result; a run ends at the tip that its end names. The end of anything else changes
/// nothing, and neither does the end of a navigation, after which a snapshot is taken anew.
pub proof fn law_an_end_shows_the_result(snapshot: LaneSnapshotView, event: HarnessEventView)
    requires
        event is RunEnd || event is CompactionEnd || event is NavigationEnd,
    ensures
        match event {
            HarnessEventView::RunEnd {
                lane,
                run_id,
                status,
                error,
                from_tip_id,
                tip_id,
                ended_at,
                ..
            } => if is_about(snapshot, lane, run_id) && snapshot.operation->Some_0.kind == "run"@ {
                reduced(snapshot, event) == LaneSnapshotView {
                    operation: None,
                    tip_id,
                    last_result: Some(
                        OperationResultRecordView {
                            operation_id: run_id,
                            kind: OperationIntentView::Run { prompt_entry_ids: Seq::empty() },
                            status,
                            error,
                            from_tip_id,
                            tip_id,
                            started_at: snapshot.operation->Some_0.started_at,
                            ended_at,
                        },
                    ),
                    ..snapshot
                }
            } else {
                reduced(snapshot, event) == snapshot
            },
            HarnessEventView::CompactionEnd { lane, run_id, status, error, ended_at, .. } => {
                if is_about(snapshot, lane, run_id) && snapshot.operation->Some_0.kind
                    == "compaction"@ {
                    reduced(snapshot, event) == LaneSnapshotView {
                        operation: None,
                        last_result: Some(
                            OperationResultRecordView {
                                operation_id: run_id,
                                kind: OperationIntentView::Compaction { custom_instructions: None },
                                status,
                                error,
                                from_tip_id: snapshot.operation->Some_0.from_tip_id,
                                tip_id: snapshot.tip_id,
                                started_at: snapshot.operation->Some_0.started_at,
                                ended_at,
                            },
                        ),
                        ..snapshot
                    }
                } else {
                    reduced(snapshot, event) == snapshot
                }
            },
            _ => reduced(snapshot, event) == snapshot,
        },
{
}

/// Queues and settings are shown as the event of the lane, or of the harness, gives them;
/// usage wherever it arises; a fault once there was one. Nothing else changes.
pub proof fn law_queues_settings_and_usage_are_shown_as_told(
    snapshot: LaneSnapshotView,
    event: HarnessEventView,
)
    requires
        event is QueueUpdate || event is ConfigUpdate || event is Usage || event is Fault,
    ensures
        match event {
            HarnessEventView::QueueUpdate { lane, queues, .. } => reduced(snapshot, event) == if lane
                == snapshot.lane {
                LaneSnapshotView { queues, ..snapshot }
            } else {
                snapshot
            },
            HarnessEventView::ConfigUpdate { lane, payload, .. } => reduced(snapshot, event)
                == if lane is None || lane == Some(snapshot.lane) {
                LaneSnapshotView {
                    configuration: match payload {
                        ConfigUpdatePayloadView::Model { value, .. } => LaneConfigurationView {
                            model: value,
                            ..snapshot.configuration
                        },
                        ConfigUpdatePayloadView::ThinkingLevel { value, .. } => {
                            LaneConfigurationView {
                                thinking_level: value,
                                ..snapshot.configuration
                            }
                        },
                        ConfigUpdatePayloadView::ActiveTools { value, .. } => {
                            LaneConfigurationView {
                                active_tool_names: value,
                                ..snapshot.configuration
                            }
                        },
                        _ => snapshot.configuration,
                    },
                    ..snapshot
                }
            } else {
                snapshot
            },
            HarnessEventView::Usage { totals, .. } => reduced(snapshot, event)
                == LaneSnapshotView {
                stats: SessionStatsView {
                    message_count: snapshot.stats.message_count,
                    usage: totals,
                },
                ..snapshot
            },
            HarnessEventView::Fault { lane, .. } => reduced(snapshot, event) == if lane is None
                || lane == Some(snapshot.lane) {
                LaneSnapshotView { faulted: true, ..snapshot }
            } else {
                snapshot
            },
            _ => false,
        },
{
}

} // verus!
