//! Starting and stopping on request: what the user wants is noted first, then the operations follow one
//! another.

use crate::controlApi::httpControl::{detailedError, ApiError};
use crate::localization::ErrorCode;
use vstd::prelude::*;

verus! {

/// What is wanted of the service.
#[derive(Clone, Copy, Debug, PartialEq, Eq, Structural)]
pub struct ServiceWishes {
    /// Whether the data plane is to run. Recovery reads it and never decides it.
    pub serviceRunIntent: bool,
    /// Whether the data plane is started together with the control plane.
    pub startServiceOnLaunch: bool,
    /// Whether the control plane shuts down.
    pub shutdown: bool,
}

/// The steps of a start on request.
#[derive(Clone, Copy, Debug, PartialEq, Eq, Structural)]
pub enum StartStep {
    /// Wait until no other operation is under way.
    AwaitTurn,
    /// Hide the service from readers until everything is in place.
    RaiseBarrier,
    /// Find the selected processes anew.
    RefreshProcesses,
    /// Start the data plane.
    StartDataPlane,
    PublishConfiguration,
    PublishServiceState,
    /// Let readers see the service again.
    LowerBarrier,
    PublishRuntimeViews,
    /// Report how the start went.
    Report,
}

/// The step behind a step.
pub open spec fn followingStep(step: StartStep) -> StartStep {
    match step {
        StartStep::AwaitTurn => StartStep::RaiseBarrier,
        StartStep::RaiseBarrier => StartStep::RefreshProcesses,
        StartStep::RefreshProcesses => StartStep::StartDataPlane,
        StartStep::StartDataPlane => StartStep::PublishConfiguration,
        StartStep::PublishConfiguration => StartStep::PublishServiceState,
        StartStep::PublishServiceState => StartStep::LowerBarrier,
        StartStep::LowerBarrier => StartStep::PublishRuntimeViews,
        StartStep::PublishRuntimeViews => StartStep::Report,
        StartStep::Report => StartStep::Report,
    }
}

/// A start on request under way.
#[derive(Clone, Copy, Debug, PartialEq, Eq, Structural)]
pub struct ServiceStart {
    pub step: StartStep,
    /// Whether readers are held back.
    pub barrierRaised: bool,
    /// How starting the data plane went, once it was tried.
    pub started: Option<bool>,
}

/// What a step leads to. `succeeded` matters where the data plane is started.
pub open spec fn nextStart(start: ServiceStart, succeeded: bool) -> ServiceStart {
    ServiceStart {
        step: followingStep(start.step),
        barrierRaised: match start.step {
            StartStep::RaiseBarrier => true,
            StartStep::LowerBarrier => false,
            _ => start.barrierRaised,
        },
        started: if start.step == StartStep::StartDataPlane {
            Some(succeeded)
        } else {
            start.started
        },
    }
}

/// A start at its beginning.
pub open spec fn beginningStart() -> ServiceStart {
    ServiceStart { step: StartStep::AwaitTurn, barrierRaised: false, started: None }
}

impl ServiceStart {
    /// What the current step leads to.
    pub fn advance(self, succeeded: bool) -> (result: ServiceStart)
        ensures
            result == nextStart(self, succeeded),
    {
        let step = match self.step {
            StartStep::AwaitTurn => StartStep::RaiseBarrier,
            StartStep::RaiseBarrier => StartStep::RefreshProcesses,
            StartStep::RefreshProcesses => StartStep::StartDataPlane,
            StartStep::StartDataPlane => StartStep::PublishConfiguration,
            StartStep::PublishConfiguration => StartStep::PublishServiceState,
            StartStep::PublishServiceState => StartStep::LowerBarrier,
            StartStep::LowerBarrier => StartStep::PublishRuntimeViews,
            StartStep::PublishRuntimeViews => StartStep::Report,
            StartStep::Report => StartStep::Report,
        };
        let barrierRaised = match self.step {
            StartStep::RaiseBarrier => true,
            StartStep::LowerBarrier => false,
            _ => self.barrierRaised,
        };
        let started = match self.step {
            StartStep::StartDataPlane => Some(succeeded),
            _ => self.started,
        };
        ServiceStart { step, barrierRaised, started }
    }
}

impl ServiceWishes {
    /// Announces that the control plane shuts down.
    pub fn beginShutdown(&mut self)
        ensures
            *final(self) == (ServiceWishes { shutdown: true, ..*old(self) }),
    {
        self.shutdown = true;
    }

    /// Notes that the data plane is to run and begins a start. This comes before anything is waited for,
    /// so that a recovery under way sees it.
    pub fn startService(&mut self) -> (result: ServiceStart)
        ensures
            *final(self) == (ServiceWishes { serviceRunIntent: true, ..*old(self) }),
            result == beginningStart(),
    {
        self.serviceRunIntent = true;
        ServiceStart { step: StartStep::AwaitTurn, barrierRaised: false, started: None }
    }

    /// Begins a start together with the control plane, where that is wanted.
    pub fn startServiceIfConfigured(&mut self) -> (result: Option<ServiceStart>)
        ensures
            old(self).startServiceOnLaunch ==> result == Some(beginningStart()) && *final(self) == (
            ServiceWishes { serviceRunIntent: true, ..*old(self) }),
            !old(self).startServiceOnLaunch ==> result is None && *final(self) == *old(self),
    {
        if self.startServiceOnLaunch {
            Some(self.startService())
        } else {
            None
        }
    }

    /// Notes that the data plane is not to run. This comes before anything is waited for, so that a
    /// recovery under way does not start it again.
    pub fn stopService(&mut self)
        ensures
            *final(self) == (ServiceWishes { serviceRunIntent: false, ..*old(self) }),
    {
        self.serviceRunIntent = false;
    }
}

/// The answer to an account service that could not be stopped.
pub fn stopAccountService(failure: Option<String>) -> (result: Result<(), ApiError>)
    ensures
        match failure {
            Some(detail) => result matches Err(error) && error@ == detailedError(
                500,
                ErrorCode::ServiceStopFailed,
                detail@,
            ),
            None => result is Ok,
        },
{
    match failure {
        Some(detail) => Err(ApiError::internal(ErrorCode::ServiceStopFailed).withDetail(detail)),
        None => Ok(()),
    }
}

/// Whether a start keeps its course: readers are held back exactly from before the first change until
/// everything is published, and how it went is known by then.
pub open spec fn isStartSound(start: ServiceStart) -> bool {
    &&& start.barrierRaised <==> (start.step is RefreshProcesses || start.step is StartDataPlane
        || start.step is PublishConfiguration || start.step is PublishServiceState
        || start.step is LowerBarrier)
    &&& start.started is Some <==> (start.step is PublishConfiguration
        || start.step is PublishServiceState || start.step is LowerBarrier
        || start.step is PublishRuntimeViews || start.step is Report)
}

/// Readers never see a service that is half started, and a failed start is published before it is
/// reported.
pub proof fn lawStartIsSeenWhole(start: ServiceStart, succeeded: bool)
    ensures
        isStartSound(beginningStart()),
        isStartSound(start) ==> isStartSound(nextStart(start, succeeded)),
        isStartSound(start) && start.step is Report ==> !start.barrierRaised
            && start.started is Some,
        isStartSound(start) && start.step is PublishRuntimeViews ==> !start.barrierRaised,
{
}

/// A start takes its steps in order: it waits for its turn, raises the barrier, looks at the processes, starts,
/// publishes, lowers the barrier, publishes what runs and reports.
pub proof fn lawStartTakesItsSteps(start: ServiceStart, succeeded: bool)
    ensures
        beginningStart().step == StartStep::AwaitTurn,
        followingStep(StartStep::AwaitTurn) == StartStep::RaiseBarrier,
        followingStep(StartStep::RaiseBarrier) == StartStep::RefreshProcesses,
        followingStep(StartStep::RefreshProcesses) == StartStep::StartDataPlane,
        followingStep(StartStep::StartDataPlane) == StartStep::PublishConfiguration,
        followingStep(StartStep::PublishConfiguration) == StartStep::PublishServiceState,
        followingStep(StartStep::PublishServiceState) == StartStep::LowerBarrier,
        followingStep(StartStep::LowerBarrier) == StartStep::PublishRuntimeViews,
        followingStep(StartStep::PublishRuntimeViews) == StartStep::Report,
        nextStart(start, succeeded).step == followingStep(start.step),
        start.step is StartDataPlane ==> nextStart(start, succeeded).started == Some(succeeded),
{
}

} // verus!
