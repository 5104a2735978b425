//! What the requests to a lane answer.

use crate::lane::accept::{about_lane, Answer, AnswerView};
use crate::model::message::{DeferredHandle, DeferredHandleView};
use crate::model::session::{OperationResultRecord, OperationResultRecordView, TerminalStatus};
use crate::text::{debug_text, join};
use crate::types::{
    DriveOutcome, DriveOutcomeView, HarnessError, HarnessErrorView, LaneRuntimeState,
    OperationAdmission, OperationRequest, OperationRequestView,
};
use vstd::prelude::*;

verus! {

impl OperationRequestView {
    /// The id that the caller gave to the operation.
    pub open spec fn operation_id(self) -> Option<Seq<char>> {
        match self {
            OperationRequestView::Prompt { operation_id, .. } => operation_id,
            OperationRequestView::Skill { operation_id, .. } => operation_id,
            OperationRequestView::PromptTemplate { operation_id, .. } => operation_id,
            OperationRequestView::Compaction { operation_id, .. } => operation_id,
            OperationRequestView::Navigation { operation_id, .. } => operation_id,
        }
    }
}

/// The way in which a request is accepted.
#[derive(Clone, Copy, Debug, PartialEq, Eq, Structural)]
pub enum Acceptance {
    Run,
    Compaction,
    Navigation,
}

/// The id and the way of a request. A request without an id gets the fresh one.
pub fn accept(request: &OperationRequest, fresh_id: String) -> (r: (String, Acceptance))
    ensures
        r.0@ == (match request.deep_view().operation_id() {
            Some(id) => id,
            None => fresh_id@,
        }),
        r.1 == (match request.deep_view() {
            OperationRequestView::Compaction { .. } => Acceptance::Compaction,
            OperationRequestView::Navigation { .. } => Acceptance::Navigation,
            _ => Acceptance::Run,
        }),
{
    let given = match request {
        OperationRequest::Prompt { operation_id, .. }
        | OperationRequest::Skill { operation_id, .. }
        | OperationRequest::PromptTemplate { operation_id, .. }
        | OperationRequest::Compaction { operation_id, .. }
        | OperationRequest::Navigation { operation_id, .. } => operation_id,
    };
    let id = match given {
        Some(id) => id.clone(),
        None => fresh_id,
    };
    let acceptance = match request {
        OperationRequest::Compaction { .. } => Acceptance::Compaction,
        OperationRequest::Navigation { .. } => Acceptance::Navigation,
        _ => Acceptance::Run,
    };
    (id, acceptance)
}

/// Whether a run can be refused with an error.
pub fn refuses_run(error: &HarnessError) -> (r: bool)
    ensures
        r == (match error.deep_view() {
            HarnessErrorView::LaneBusy { .. } => true,
            HarnessErrorView::InvalidMessage { .. } => true,
            HarnessErrorView::UnknownSkill { .. } => true,
            HarnessErrorView::UnknownTemplate { .. } => true,
            HarnessErrorView::Closed { .. } => true,
            _ => false,
        }),
{
    match error {
        HarnessError::LaneBusy { .. }
        | HarnessError::InvalidMessage { .. }
        | HarnessError::UnknownSkill { .. }
        | HarnessError::UnknownTemplate { .. }
        | HarnessError::Closed { .. } => true,
        _ => false,
    }
}

/// Whether a compaction can be refused with an error.
pub fn refuses_compaction(error: &HarnessError) -> (r: bool)
    ensures
        r == (match error.deep_view() {
            HarnessErrorView::LaneBusy { .. } => true,
            HarnessErrorView::NothingToCompact { .. } => true,
            HarnessErrorView::Closed { .. } => true,
            _ => false,
        }),
{
    match error {
        HarnessError::LaneBusy { .. }
        | HarnessError::NothingToCompact { .. }
        | HarnessError::Closed { .. } => true,
        _ => false,
    }
}

/// Whether a navigation can be refused with an error.
pub fn refuses_navigation(error: &HarnessError) -> (r: bool)
    ensures
        r == (match error.deep_view() {
            HarnessErrorView::LaneBusy { .. } => true,
            HarnessErrorView::InvalidNavigation { .. } => true,
            HarnessErrorView::UnknownTarget { .. } => true,
            HarnessErrorView::Closed { .. } => true,
            _ => false,
        }),
{
    match error {
        HarnessError::LaneBusy { .. }
        | HarnessError::InvalidNavigation { .. }
        | HarnessError::UnknownTarget { .. }
        | HarnessError::Closed { .. } => true,
        _ => false,
    }
}

/// Whether a structural operation is followed by a run: not if it was aborted.
pub fn continues_after_structural(record: &OperationResultRecord) -> (r: bool)
    ensures
        r == (record.deep_view().status != TerminalStatus::Aborted),
{
    record.status != TerminalStatus::Aborted
}

/// Whether the run behind a structural operation may be refused in silence:
/// there is nothing to answer, another was faster, or the lane is closed.
pub fn skips_continuation(error: &HarnessError) -> (r: bool)
    ensures
        r == (match error.deep_view() {
            HarnessErrorView::InvalidMessage { .. } => true,
            HarnessErrorView::LaneBusy { .. } => true,
            HarnessErrorView::Closed { .. } => true,
            _ => false,
        }),
{
    match error {
        HarnessError::InvalidMessage { .. }
        | HarnessError::LaneBusy { .. }
        | HarnessError::Closed { .. } => true,
        _ => false,
    }
}

/// What a run came to.
#[derive(Debug, PartialEq, Eq)]
pub enum RunSettlement {
    Settled(OperationResultRecord),
    /// The run waits for a deferred response.
    Suspended { operation_id: String, deferred: DeferredHandle },
}

/// Contents of a [`RunSettlement`].
pub enum RunSettlementView {
    Settled(OperationResultRecordView),
    Suspended { operation_id: Seq<char>, deferred: DeferredHandleView },
}

impl DeepView for RunSettlement {
    type V = RunSettlementView;

    open spec fn deep_view(&self) -> RunSettlementView {
        match self {
            RunSettlement::Settled(record) => RunSettlementView::Settled(record.deep_view()),
            RunSettlement::Suspended { operation_id, deferred } => RunSettlementView::Suspended {
                operation_id: operation_id.deep_view(),
                deferred: deferred.deep_view(),
            },
        }
    }
}

/// What a run came to, by what became of its drive. A lane that was closed under
/// way says so. Any other refusal, and a rest on a retry that the drive was to
/// wait for, break what was promised when the run was accepted.
pub fn drive_run_result(operation_id: &String, driven: Answer<DriveOutcome>) -> (r: Result<
    Answer<RunSettlement>,
    String,
>)
    ensures
        match driven.deep_view() {
            AnswerView::Refused { error } => if error is Closed {
                r is Ok && r->Ok_0.deep_view() == (AnswerView::<RunSettlementView>::Refused {
                    error,
                })
            } else {
                r is Err && r->Err_0@ == "Accepted run "@ + operation_id@
                    + " no longer matches its lane"@
            },
            AnswerView::Granted { value } => match value {
                DriveOutcomeView::Settled { outcome } => r is Ok && r->Ok_0.deep_view() == (
                AnswerView::Granted { value: RunSettlementView::Settled(outcome) }),
                DriveOutcomeView::WaitingDeferred { deferred, .. } => r is Ok
                    && r->Ok_0.deep_view() == (AnswerView::Granted {
                    value: RunSettlementView::Suspended { operation_id: operation_id@, deferred },
                }),
                DriveOutcomeView::WaitingRetry { .. } => r is Err && r->Err_0@ == "Run "@
                    + operation_id@ + " returned an unwaited retry"@,
            },
        },
{
    let value = match driven {
        Answer::Granted { value } => value,
        Answer::Refused { error } => {
            if let HarnessError::Closed { .. } = &error {
                return Ok(Answer::Refused { error });
            }
            let named = join("Accepted run ".to_string(), operation_id.as_str());
            return Err(join(named, " no longer matches its lane"));
        },
    };
    match value {
        DriveOutcome::Settled { outcome } => Ok(
            Answer::Granted { value: RunSettlement::Settled(outcome) },
        ),
        DriveOutcome::WaitingDeferred { deferred, .. } => Ok(
            Answer::Granted {
                value: RunSettlement::Suspended { operation_id: operation_id.clone(), deferred },
            },
        ),
        DriveOutcome::WaitingRetry { .. } => {
            let named = join("Run ".to_string(), operation_id.as_str());
            Err(join(named, " returned an unwaited retry"))
        },
    }
}

/// How the drive of a structural operation broke what was promised when the
/// operation was accepted.
#[derive(Debug, PartialEq, Eq)]
pub enum StructuralFault {
    /// The operation lost its lane.
    Mismatch(String),
    /// The drive rests on something else than a result.
    Unsettled(DriveOutcome),
}

/// Contents of a [`StructuralFault`].
#[allow(inconsistent_fields)]
pub enum StructuralFaultView {
    Mismatch(Seq<char>),
    Unsettled(DriveOutcomeView),
}

impl DeepView for StructuralFault {
    type V = StructuralFaultView;

    open spec fn deep_view(&self) -> StructuralFaultView {
        match self {
            StructuralFault::Mismatch(message) => StructuralFaultView::Mismatch(
                message.deep_view(),
            ),
            StructuralFault::Unsettled(outcome) => StructuralFaultView::Unsettled(
                outcome.deep_view(),
            ),
        }
    }
}

/// What a structural operation came to, by what became of its drive.
pub fn drive_structural_admission(
    admission: &OperationAdmission,
    driven: Answer<DriveOutcome>,
) -> (r: Result<Answer<OperationResultRecord>, StructuralFault>)
    ensures
        match driven.deep_view() {
            AnswerView::Refused { error } => if error is Closed {
                r is Ok && r->Ok_0.deep_view() == (AnswerView::<
                    OperationResultRecordView,
                >::Refused { error })
            } else {
                r is Err && r->Err_0.deep_view() == StructuralFaultView::Mismatch(
                    "Accepted "@ + admission.deep_view().kind + " "@
                        + admission.deep_view().operation_id + " no longer matches its lane"@,
                )
            },
            AnswerView::Granted { value } => match value {
                DriveOutcomeView::Settled { outcome } => r is Ok && r->Ok_0.deep_view() == (
                AnswerView::Granted { value: outcome }),
                other => r is Err && r->Err_0.deep_view() == StructuralFaultView::Unsettled(other),
            },
        },
{
    let value = match driven {
        Answer::Granted { value } => value,
        Answer::Refused { error } => {
            if let HarnessError::Closed { .. } = &error {
                return Ok(Answer::Refused { error });
            }
            let kind = join("Accepted ".to_string(), admission.kind.as_str());
            let named = join(join(kind, " "), admission.operation_id.as_str());
            return Err(StructuralFault::Mismatch(join(named, " no longer matches its lane")));
        },
    };
    match value {
        DriveOutcome::Settled { outcome } => Ok(Answer::Granted { value: outcome }),
        other => Err(StructuralFault::Unsettled(other)),
    }
}

/// The operation that is resumed.
pub fn resume(lane_name: &String, state: &LaneRuntimeState) -> (r: Result<String, HarnessError>)
    ensures
        match state.deep_view().operation {
            Some(operation) => r is Ok && r->Ok_0@ == operation.meta.operation_id,
            None => r is Err && r->Err_0.deep_view() == (HarnessErrorView::NothingToResume {
                lane: lane_name@,
                message: "Lane "@ + debug_text(lane_name@)
                    + " has no active operation to resume"@,
            }),
        },
{
    match &state.operation {
        Some(operation) => Ok(operation.meta.operation_id.clone()),
        None => Err(
            HarnessError::NothingToResume {
                lane: lane_name.clone(),
                message: about_lane(lane_name, " has no active operation to resume"),
            },
        ),
    }
}

/// The operation that is aborted.
pub fn abort(lane_name: &String, state: &LaneRuntimeState) -> (r: Result<String, HarnessError>)
    ensures
        match state.deep_view().operation {
            Some(operation) => r is Ok && r->Ok_0@ == operation.meta.operation_id,
            None => r is Err && r->Err_0.deep_view() == (HarnessErrorView::NoActiveOperation {
                lane: lane_name@,
                message: "Lane "@ + debug_text(lane_name@) + " has no active operation"@,
            }),
        },
{
    match &state.operation {
        Some(operation) => Ok(operation.meta.operation_id.clone()),
        None => Err(
            HarnessError::NoActiveOperation {
                lane: lane_name.clone(),
                message: about_lane(lane_name, " has no active operation"),
            },
        ),
    }
}

/// The error of a drive that was to wind down an aborted operation.
pub fn abort_error(operation_id: &String, error: HarnessError) -> (r: HarnessError)
    ensures
        r.deep_view() == if error.deep_view() is Closed {
            error.deep_view()
        } else {
            HarnessErrorView::Closed {
                message: "Cancelled operation "@ + operation_id@
                    + " no longer matches its lane"@,
            }
        },
{
    match error {
        HarnessError::Closed { .. } => error,
        _ => {
            let named = join("Cancelled operation ".to_string(), operation_id.as_str());
            HarnessError::Closed { message: join(named, " no longer matches its lane") }
        },
    }
}

} // verus!
