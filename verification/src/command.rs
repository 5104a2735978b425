//! Commands of a lane: effect-free decisions that one commit carries out.

use crate::model::event::{PlannedEvent, PlannedEventView};
use crate::model::session::{
    OperationResultRecord, OperationResultRecordView, OperationState, OperationStateView,
};
use crate::model::storage::{Write, WriteView};
use crate::types::{LanePatch, LanePatchView, LaneRuntimeState, LaneRuntimeStateView};
use vstd::prelude::*;

verus! {

/// A decision on a lane.
#[derive(Debug, PartialEq, Eq)]
pub enum LaneCommand<T> {
    /// Commit the writes, replace the lane state, hand back the result and emit
    /// the events.
    Commit {
        writes: Vec<Write>,
        next: LaneRuntimeState,
        result: T,
        events: Vec<PlannedEvent>,
    },
    Return {
        result: T,
    },
    Reject {
        error: String,
    },
}

/// Contents of a [`LaneCommand`].
pub enum LaneCommandView<T> {
    Commit {
        writes: Seq<WriteView>,
        next: LaneRuntimeStateView,
        result: T,
        events: Seq<PlannedEventView>,
    },
    Return {
        result: T,
    },
    Reject {
        error: Seq<char>,
    },
}

impl<T: DeepView> DeepView for LaneCommand<T> {
    type V = LaneCommandView<T::V>;

    open spec fn deep_view(&self) -> LaneCommandView<T::V> {
        match self {
            LaneCommand::Commit { writes, next, result, events } => LaneCommandView::Commit {
                writes: writes.deep_view(),
                next: next.deep_view(),
                result: result.deep_view(),
                events: events.deep_view(),
            },
            LaneCommand::Return { result } => LaneCommandView::Return {
                result: result.deep_view(),
            },
            LaneCommand::Reject { error } => LaneCommandView::Reject { error: error.deep_view() },
        }
    }
}

/// Whether an operation went on or was found cancelled.
#[derive(Debug, PartialEq, Eq)]
pub enum ContinueOperationResult<T> {
    CancelRequested,
    Result {
        value: T,
    },
}

/// Contents of a [`ContinueOperationResult`].
pub enum ContinueOperationResultView<T> {
    CancelRequested,
    Result {
        value: T,
    },
}

impl<T: DeepView> DeepView for ContinueOperationResult<T> {
    type V = ContinueOperationResultView<T::V>;

    open spec fn deep_view(&self) -> ContinueOperationResultView<T::V> {
        match self {
            ContinueOperationResult::CancelRequested => {
                ContinueOperationResultView::CancelRequested
            },
            ContinueOperationResult::Result { value } => ContinueOperationResultView::Result {
                value: value.deep_view(),
            },
        }
    }
}

/// A decision on the operation of a lane.
#[derive(Debug, PartialEq, Eq)]
pub enum OperationCommand<T> {
    /// Move the operation to another state.
    Commit {
        writes: Vec<Write>,
        operation_state: OperationState,
        lane: Option<LanePatch>,
        result: T,
        events: Vec<PlannedEvent>,
    },
    /// End the operation.
    Finish {
        writes: Vec<Write>,
        record: OperationResultRecord,
        lane: Option<LanePatch>,
        result: T,
        events: Vec<PlannedEvent>,
    },
    Return {
        result: T,
    },
}

/// Contents of an [`OperationCommand`].
pub enum OperationCommandView<T> {
    Commit {
        writes: Seq<WriteView>,
        operation_state: OperationStateView,
        lane: Option<LanePatchView>,
        result: T,
        events: Seq<PlannedEventView>,
    },
    Finish {
        writes: Seq<WriteView>,
        record: OperationResultRecordView,
        lane: Option<LanePatchView>,
        result: T,
        events: Seq<PlannedEventView>,
    },
    Return {
        result: T,
    },
}

impl<T: DeepView> DeepView for OperationCommand<T> {
    type V = OperationCommandView<T::V>;

    open spec fn deep_view(&self) -> OperationCommandView<T::V> {
        match self {
            OperationCommand::Commit { writes, operation_state, lane, result, events } => {
                OperationCommandView::Commit {
                    writes: writes.deep_view(),
                    operation_state: operation_state.deep_view(),
                    lane: lane.deep_view(),
                    result: result.deep_view(),
                    events: events.deep_view(),
                }
            },
            OperationCommand::Finish { writes, record, lane, result, events } => {
                OperationCommandView::Finish {
                    writes: writes.deep_view(),
                    record: record.deep_view(),
                    lane: lane.deep_view(),
                    result: result.deep_view(),
                    events: events.deep_view(),
                }
            },
            OperationCommand::Return { result } => OperationCommandView::Return {
                result: result.deep_view(),
            },
        }
    }
}

} // verus!
