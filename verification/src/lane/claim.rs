//! The process side of a lane: who drives it, who waits for it, and when it is
//! closed.

use crate::lane::queue::{mismatch, mismatch_of};
use crate::model::session::{OperationResultRecord, OperationResultRecordView};
use crate::types::{
    DriveOptions, DriveOptionsView, DriveOutcome, DriveOutcomeView, HarnessError, HarnessErrorView,
    LaneRuntimeState, LaneRuntimeStateView,
};
use vstd::prelude::*;

verus! {

/// How far a drive has come.
#[derive(Debug, PartialEq, Eq)]
pub enum DriveCompletion {
    Pending,
    Settled(DriveOutcome),
    Failed(String),
}

/// Contents of a [`DriveCompletion`].
#[allow(inconsistent_fields)]
pub enum DriveCompletionView {
    Pending,
    Settled(DriveOutcomeView),
    Failed(Seq<char>),
}

impl DeepView for DriveCompletion {
    type V = DriveCompletionView;

    open spec fn deep_view(&self) -> DriveCompletionView {
        match self {
            DriveCompletion::Pending => DriveCompletionView::Pending,
            DriveCompletion::Settled(outcome) => DriveCompletionView::Settled(outcome.deep_view()),
            DriveCompletion::Failed(error) => DriveCompletionView::Failed(error.deep_view()),
        }
    }
}

/// One pass over an operation in this process.
#[derive(Debug, PartialEq, Eq)]
pub struct Drive {
    pub operation_id: String,
    pub wait_for_retry: bool,
    /// How many deferred responses the drive may still poll.
    pub deferred_permits: usize,
    /// Whether the requests of the drive were told to stop.
    pub close_signal: bool,
    pub completion: DriveCompletion,
}

/// Contents of a [`Drive`].
pub struct DriveView {
    pub operation_id: Seq<char>,
    pub wait_for_retry: bool,
    pub deferred_permits: usize,
    pub close_signal: bool,
    pub completion: DriveCompletionView,
}

impl DeepView for Drive {
    type V = DriveView;

    open spec fn deep_view(&self) -> DriveView {
        DriveView {
            operation_id: self.operation_id.deep_view(),
            wait_for_retry: self.wait_for_retry,
            deferred_permits: self.deferred_permits,
            close_signal: self.close_signal,
            completion: self.completion.deep_view(),
        }
    }
}

/// A drive that has just been installed. It may poll once if it is asked to.
pub open spec fn new_drive(options: DriveOptionsView) -> DriveView {
    DriveView {
        operation_id: options.operation_id,
        wait_for_retry: options.wait_for_retry,
        deferred_permits: if options.poll_deferred {
            1
        } else {
            0
        },
        close_signal: false,
        completion: DriveCompletionView::Pending,
    }
}

impl Drive {
    /// Makes a drive.
    pub fn new(options: &DriveOptions) -> (r: Self)
        ensures
            r.deep_view() == new_drive(options.deep_view()),
    {
        Drive {
            operation_id: options.operation_id.clone(),
            wait_for_retry: options.wait_for_retry,
            deferred_permits: if options.poll_deferred {
                1
            } else {
                0
            },
            close_signal: false,
            completion: DriveCompletion::Pending,
        }
    }

    /// Ends the drive with an outcome.
    pub fn settle(&mut self, outcome: DriveOutcome)
        ensures
            final(self).deep_view() == (DriveView {
                completion: DriveCompletionView::Settled(outcome.deep_view()),
                ..old(self).deep_view()
            }),
    {
        self.completion = DriveCompletion::Settled(outcome);
    }

    /// Ends the drive with an error.
    pub fn fail(&mut self, error: String)
        ensures
            final(self).deep_view() == (DriveView {
                completion: DriveCompletionView::Failed(error@),
                ..old(self).deep_view()
            }),
    {
        self.completion = DriveCompletion::Failed(error);
    }

    /// Stops the drive: its requests are told to stop, and it fails.
    pub fn close_gate(&mut self, error: String)
        ensures
            final(self).deep_view() == (DriveView {
                close_signal: true,
                completion: DriveCompletionView::Failed(error@),
                ..old(self).deep_view()
            }),
    {
        self.close_signal = true;
        self.completion = DriveCompletion::Failed(error);
    }

    /// The outcome of the drive, if it has one.
    pub fn completion(&self) -> (r: Result<Option<DriveOutcome>, String>)
        ensures
            match self.deep_view().completion {
                DriveCompletionView::Pending => r is Ok && r->Ok_0 is None,
                DriveCompletionView::Settled(outcome) => r is Ok && r->Ok_0.deep_view() == Some(
                    outcome,
                ),
                DriveCompletionView::Failed(error) => r is Err && r->Err_0@ == error,
            },
    {
        match &self.completion {
            DriveCompletion::Pending => Ok(None),
            DriveCompletion::Settled(outcome) => Ok(Some(outcome.clone())),
            DriveCompletion::Failed(error) => Err(error.clone()),
        }
    }

    /// Uses up a permit to poll.
    pub fn use_permit(&mut self)
        requires
            old(self).deferred_permits > 0,
        ensures
            final(self).deep_view() == (DriveView {
                deferred_permits: (old(self).deferred_permits - 1) as usize,
                ..old(self).deep_view()
            }),
    {
        self.deferred_permits = self.deferred_permits - 1;
    }
}

/// What a request to drive an operation finds.
#[derive(Debug, PartialEq, Eq)]
pub enum DriveClaim {
    /// The operation has its result.
    Settled { outcome: OperationResultRecord },
    /// The operation does not own the lane.
    Mismatch { error: HarnessError },
    /// Another operation is being driven.
    Occupied,
    /// The operation is being driven, by this request or another.
    Observe { installed: bool },
}

/// Contents of a [`DriveClaim`].
pub enum DriveClaimView {
    Settled { outcome: OperationResultRecordView },
    Mismatch { error: HarnessErrorView },
    Occupied,
    Observe { installed: bool },
}

impl DeepView for DriveClaim {
    type V = DriveClaimView;

    open spec fn deep_view(&self) -> DriveClaimView {
        match self {
            DriveClaim::Settled { outcome } => DriveClaimView::Settled {
                outcome: outcome.deep_view(),
            },
            DriveClaim::Mismatch { error } => DriveClaimView::Mismatch {
                error: error.deep_view(),
            },
            DriveClaim::Occupied => DriveClaimView::Occupied,
            DriveClaim::Observe { installed } => DriveClaimView::Observe { installed: *installed },
        }
    }
}

/// A lane in this process.
#[derive(Debug, PartialEq, Eq)]
pub struct LaneImpl {
    pub name: String,
    pub state: LaneRuntimeState,
    /// Who has the lane to itself while it is idle.
    pub idle_owner: Option<u64>,
    /// Counts the changes that waiting callers have to look at.
    pub generation: u64,
    pub closed_error: Option<String>,
    pub active_drive: Option<Drive>,
}

/// Contents of a [`LaneImpl`].
pub struct LaneImplView {
    pub name: Seq<char>,
    pub state: LaneRuntimeStateView,
    pub idle_owner: Option<u64>,
    pub generation: u64,
    pub closed_error: Option<Seq<char>>,
    pub active_drive: Option<DriveView>,
}

impl DeepView for LaneImpl {
    type V = LaneImplView;

    open spec fn deep_view(&self) -> LaneImplView {
        LaneImplView {
            name: self.name.deep_view(),
            state: self.state.deep_view(),
            idle_owner: self.idle_owner,
            generation: self.generation,
            closed_error: self.closed_error.deep_view(),
            active_drive: self.active_drive.deep_view(),
        }
    }
}

impl LaneImplView {
    /// Whether an operation is being driven.
    pub open spec fn drives(self, operation_id: Seq<char>) -> bool {
        self.active_drive matches Some(drive) && drive.operation_id == operation_id
    }
}

/// The operation that owns a lane.
pub open spec fn owner_of(state: LaneRuntimeStateView) -> Option<Seq<char>> {
    match state.operation {
        Some(operation) => Some(operation.meta.operation_id),
        None => None,
    }
}

/// What a request to drive an operation finds on a lane.
pub open spec fn claim_of(
    lane: LaneImplView,
    options: DriveOptionsView,
    stored: Option<OperationResultRecordView>,
) -> DriveClaimView {
    if owner_of(lane.state) == Some(options.operation_id) {
        match lane.active_drive {
            None => DriveClaimView::Observe { installed: true },
            Some(drive) => if drive.operation_id == options.operation_id {
                DriveClaimView::Observe { installed: false }
            } else {
                DriveClaimView::Occupied
            },
        }
    } else {
        match stored {
            Some(outcome) => DriveClaimView::Settled { outcome },
            None => DriveClaimView::Mismatch {
                error: mismatch_of(
                    lane.name,
                    options.operation_id,
                    owner_of(lane.state),
                    lane.state.last_operation_id,
                ),
            },
        }
    }
}

/// A lane after it was closed: the first error is kept, and a drive is stopped.
pub open spec fn sealed(lane: LaneImplView, error: Seq<char>) -> LaneImplView {
    LaneImplView {
        generation: (lane.generation + 1) as u64,
        closed_error: if lane.closed_error is Some {
            lane.closed_error
        } else {
            Some(error)
        },
        active_drive: match lane.active_drive {
            Some(drive) => Some(
                DriveView {
                    close_signal: true,
                    completion: DriveCompletionView::Failed(error),
                    ..drive
                },
            ),
            None => None,
        },
        ..lane
    }
}

/// A lane that no one drives or waits for yet.
pub open spec fn fresh_lane(name: Seq<char>, state: LaneRuntimeStateView) -> LaneImplView {
    LaneImplView {
        name,
        state,
        idle_owner: None,
        generation: 0,
        closed_error: None,
        active_drive: None,
    }
}

impl LaneImpl {
    /// Puts a lane in this process.
    pub fn new(name: String, state: LaneRuntimeState) -> (r: Self)
        ensures
            r.deep_view() == fresh_lane(name@, state.deep_view()),
    {
        LaneImpl {
            name,
            state,
            idle_owner: None,
            generation: 0,
            closed_error: None,
            active_drive: None,
        }
    }

    /// Closes the lane. The first error is kept, and a drive is stopped.
    pub fn seal(&mut self, error: String)
        requires
            old(self).generation < u64::MAX,
        ensures
            final(self).deep_view() == sealed(old(self).deep_view(), error@),
    {
        if self.closed_error.is_none() {
            self.closed_error = Some(error.clone());
        }
        if let Some(drive) = &mut self.active_drive {
            drive.close_gate(error);
        }
        self.generation = self.generation + 1;
    }

    /// Refuses to go on with a closed lane.
    pub fn assert_open(&self) -> (r: Result<(), String>)
        ensures
            match self.deep_view().closed_error {
                Some(error) => r is Err && r->Err_0@ == error,
                None => r is Ok,
            },
    {
        match &self.closed_error {
            Some(error) => Err(error.clone()),
            None => Ok(()),
        }
    }

    /// Whether a command may run now: not while a caller holds the idle lane.
    pub fn command(&self) -> (r: Result<bool, String>)
        ensures
            match self.deep_view().closed_error {
                Some(error) => r is Err && r->Err_0@ == error,
                None => r == Ok::<bool, String>(self.idle_owner is None),
            },
    {
        match &self.closed_error {
            Some(error) => Err(error.clone()),
            None => Ok(self.idle_owner.is_none()),
        }
    }

    /// Lets waiting callers look at the lane again.
    pub fn signal_state_change(&mut self)
        requires
            old(self).generation < u64::MAX,
        ensures
            final(self).deep_view() == (LaneImplView {
                generation: (old(self).generation + 1) as u64,
                ..old(self).deep_view()
            }),
    {
        self.generation = self.generation + 1;
    }

    /// Takes over the state that a commit has stored.
    pub fn run_command(&mut self, next: LaneRuntimeState)
        requires
            old(self).generation < u64::MAX,
        ensures
            final(self).deep_view() == (LaneImplView {
                state: next.deep_view(),
                generation: (old(self).generation + 1) as u64,
                ..old(self).deep_view()
            }),
    {
        self.state = next;
        self.generation = self.generation + 1;
    }

    /// Whether the lane has no operation.
    pub fn wait_for_idle(&self) -> (r: bool)
        ensures
            r == (self.deep_view().state.operation is None),
    {
        self.state.operation.is_none()
    }

    /// Claims an idle lane for one caller. A lane that has an operation or is
    /// driven is not idle.
    pub fn run_when_idle(&mut self, owner: u64) -> (r: bool)
        requires
            old(self).generation < u64::MAX,
        ensures
            r == (old(self).deep_view().state.operation is None && old(self).active_drive is None),
            r ==> final(self).deep_view() == (LaneImplView {
                idle_owner: Some(owner),
                generation: (old(self).generation + 1) as u64,
                ..old(self).deep_view()
            }),
            !r ==> *final(self) == *old(self),
    {
        if self.state.operation.is_some() || self.active_drive.is_some() {
            return false;
        }
        self.idle_owner = Some(owner);
        self.generation = self.generation + 1;
        true
    }

    /// Gives the lane back, if this caller still has it.
    pub fn release_idle(&mut self, owner: u64)
        requires
            old(self).generation < u64::MAX,
        ensures
            final(self).deep_view() == (LaneImplView {
                idle_owner: if old(self).idle_owner == Some(owner) {
                    None
                } else {
                    old(self).idle_owner
                },
                generation: (old(self).generation + 1) as u64,
                ..old(self).deep_view()
            }),
    {
        let held = match self.idle_owner {
            Some(current) => current == owner,
            None => false,
        };
        if held {
            self.idle_owner = None;
        }
        self.generation = self.generation + 1;
    }

    /// Claims the lane for a drive. A caller that gave up is turned away. A drive
    /// is installed where the operation owns the lane and there is none.
    pub fn command_drive_claim(
        &mut self,
        options: &DriveOptions,
        aborted: bool,
        stored: Option<OperationResultRecord>,
    ) -> (r: Result<DriveClaim, String>)
        requires
            old(self).generation < u64::MAX,
        ensures
            aborted ==> r is Err && r->Err_0@ == "The operation was aborted"@ && *final(self)
                == *old(self),
            !aborted ==> r is Ok && r->Ok_0.deep_view() == claim_of(
                old(self).deep_view(),
                options.deep_view(),
                stored.deep_view(),
            ),
            r == Ok::<DriveClaim, String>(DriveClaim::Observe { installed: true }) ==> (
            final(self).deep_view() == (LaneImplView {
                active_drive: Some(new_drive(options.deep_view())),
                generation: (old(self).generation + 1) as u64,
                ..old(self).deep_view()
            })),
            r != Ok::<DriveClaim, String>(DriveClaim::Observe { installed: true }) ==> *final(self)
                == *old(self),
    {
        if aborted {
            return Err("The operation was aborted".to_string());
        }
        let current = match &self.state.operation {
            Some(operation) => Some(operation.meta.operation_id.clone()),
            None => None,
        };
        let owns = match &current {
            Some(current) => *current == options.operation_id,
            None => false,
        };
        if owns {
            return match &self.active_drive {
                Some(drive) => if drive.operation_id == options.operation_id {
                    Ok(DriveClaim::Observe { installed: false })
                } else {
                    Ok(DriveClaim::Occupied)
                },
                None => {
                    self.active_drive = Some(Drive::new(options));
                    self.generation = self.generation + 1;
                    Ok(DriveClaim::Observe { installed: true })
                },
            };
        }
        match stored {
            Some(outcome) => Ok(DriveClaim::Settled { outcome }),
            None => Ok(
                DriveClaim::Mismatch {
                    error: mismatch(
                        &self.name,
                        &options.operation_id,
                        current,
                        self.state.last_operation_id.clone(),
                    ),
                },
            ),
        }
    }

    /// Tells whether an operation is being driven.
    pub fn is_driving(&self, operation_id: &String) -> (r: bool)
        ensures
            r == self.deep_view().drives(operation_id@),
    {
        match &self.active_drive {
            Some(drive) => drive.operation_id == *operation_id,
            None => false,
        }
    }

    /// Takes away a drive that is over.
    pub fn release_drive(&mut self, operation_id: &String)
        requires
            old(self).generation < u64::MAX,
        ensures
            final(self).deep_view() == (LaneImplView {
                active_drive: if old(self).deep_view().drives(operation_id@) {
                    None
                } else {
                    old(self).deep_view().active_drive
                },
                generation: (old(self).generation + 1) as u64,
                ..old(self).deep_view()
            }),
    {
        if self.is_driving(operation_id) {
            self.active_drive = None;
        }
        self.generation = self.generation + 1;
    }
}

/// An operation is driven by one drive at a time: while one is installed, no
/// request installs another.
pub proof fn law_one_drive_at_a_time(
    lane: LaneImplView,
    options: DriveOptionsView,
    stored: Option<OperationResultRecordView>,
)
    requires
        lane.active_drive is Some,
    ensures
        claim_of(lane, options, stored) != (DriveClaimView::Observe { installed: true }),
{
}

/// Only the operation that owns the lane is ever driven on it.
pub proof fn law_only_the_owner_is_driven(
    lane: LaneImplView,
    options: DriveOptionsView,
    stored: Option<OperationResultRecordView>,
)
    requires
        claim_of(lane, options, stored) is Observe,
    ensures
        owner_of(lane.state) == Some(options.operation_id),
{
}

} // verus!
