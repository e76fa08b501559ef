//! The order in which the data plane is brought up, taken down and cleared away after it was lost.

use crate::controlApi::accountRecovery::serviceLifecycle::{PrimaryOutcome, StopOutcomes};
use crate::controlApi::accountServiceSupervisor::AccountServiceEndpoint;
use crate::controlApi::configuration::{
    isStoredForm, AuthenticationMode, ConfigurationUpdate, ManagedHttpProxyConfiguration,
    MultiAccountConfiguration, ProcessCaptureConfiguration, Socks5Config,
};
use crate::network::Endpoint;
use crate::text::copyText;
use vstd::prelude::*;

verus! {

// ---------------------------------------------------------------------------
// Bringing the primary listener up
// ---------------------------------------------------------------------------

/// What is done next to bring the primary listener up.
#[derive(Clone, Copy, Debug, PartialEq, Eq, Structural)]
pub enum PrimaryStep {
    /// Build the handlers of the protocols.
    BuildHandlers,
    /// Follow the HTTP counters, so that the first connection is counted.
    FollowHttpMetrics,
    /// Open the listener.
    Listen,
    /// Create the recording of datagrams.
    CreateRecording,
    /// Lead captured datagrams to the recording.
    AttachSink,
    /// Start the process capture.
    StartCapture,
    /// Follow the sessions.
    FollowSessions,
    /// Read the sessions that are already there.
    ReadBaseline,
    /// Watch for an exit of the listener.
    WatchExit,
    /// Lead captured datagrams nowhere, since the capture did not start.
    DetachSink,
    /// Let the recording of datagrams run empty, since the capture did not start.
    DrainRecording,
    /// Stop the listener, since the capture did not start.
    StopListener,
    /// The primary listener is up.
    Up,
    /// The primary listener did not come up.
    GivenUp,
}

/// Why the primary listener did not come up.
#[derive(Debug)]
pub enum PrimaryFailure {
    Handlers,
    Listen,
    Capture(String),
}

/// What a step came to.
#[derive(Debug)]
pub enum PrimaryEvent {
    Succeeded,
    /// The listener answers on an endpoint.
    Listening(String),
    Failed(String),
}

/// A primary listener on its way up, with what it holds.
#[derive(Debug)]
pub struct PrimaryStart {
    pub step: PrimaryStep,
    pub endpoint: Option<String>,
    pub recording: bool,
    pub sinkAttached: bool,
    pub failure: Option<PrimaryFailure>,
}

/// What a step leads to. A capture that did not start takes everything down again: first the recording
/// of datagrams, then the listener.
pub open spec fn nextPrimary(start: PrimaryStart, event: PrimaryEvent) -> PrimaryStart {
    match start.step {
        PrimaryStep::BuildHandlers => match event {
            PrimaryEvent::Failed(_) => PrimaryStart {
                step: PrimaryStep::GivenUp,
                failure: Some(PrimaryFailure::Handlers),
                ..start
            },
            _ => PrimaryStart { step: PrimaryStep::FollowHttpMetrics, ..start },
        },
        PrimaryStep::FollowHttpMetrics => PrimaryStart { step: PrimaryStep::Listen, ..start },
        PrimaryStep::Listen => match event {
            PrimaryEvent::Listening(endpoint) => PrimaryStart {
                step: PrimaryStep::CreateRecording,
                endpoint: Some(endpoint),
                ..start
            },
            _ => PrimaryStart {
                step: PrimaryStep::GivenUp,
                failure: Some(PrimaryFailure::Listen),
                ..start
            },
        },
        PrimaryStep::CreateRecording => match event {
            PrimaryEvent::Failed(detail) => PrimaryStart {
                step: PrimaryStep::DetachSink,
                failure: Some(PrimaryFailure::Capture(detail)),
                ..start
            },
            _ => PrimaryStart { step: PrimaryStep::AttachSink, recording: true, ..start },
        },
        PrimaryStep::AttachSink => PrimaryStart {
            step: PrimaryStep::StartCapture,
            sinkAttached: true,
            ..start
        },
        PrimaryStep::StartCapture => match event {
            PrimaryEvent::Failed(detail) => PrimaryStart {
                step: PrimaryStep::DetachSink,
                failure: Some(PrimaryFailure::Capture(detail)),
                ..start
            },
            _ => PrimaryStart { step: PrimaryStep::FollowSessions, ..start },
        },
        PrimaryStep::FollowSessions => PrimaryStart { step: PrimaryStep::ReadBaseline, ..start },
        PrimaryStep::ReadBaseline => PrimaryStart { step: PrimaryStep::WatchExit, ..start },
        PrimaryStep::WatchExit => PrimaryStart { step: PrimaryStep::Up, ..start },
        PrimaryStep::DetachSink => PrimaryStart {
            step: if start.recording {
                PrimaryStep::DrainRecording
            } else {
                PrimaryStep::StopListener
            },
            sinkAttached: false,
            ..start
        },
        PrimaryStep::DrainRecording => PrimaryStart {
            step: PrimaryStep::StopListener,
            recording: false,
            ..start
        },
        PrimaryStep::StopListener => PrimaryStart {
            step: PrimaryStep::GivenUp,
            endpoint: None,
            ..start
        },
        PrimaryStep::Up => start,
        PrimaryStep::GivenUp => start,
    }
}

/// A primary listener that was not begun.
pub open spec fn beginningPrimary() -> PrimaryStart {
    PrimaryStart {
        step: PrimaryStep::BuildHandlers,
        endpoint: None,
        recording: false,
        sinkAttached: false,
        failure: None,
    }
}

/// What holds of a primary listener at each step: it failed exactly where it is taken down or was
/// given up, and it holds what the steps behind it made.
pub open spec fn isPrimarySound(start: PrimaryStart) -> bool {
    let step = start.step;
    &&& start.failure is Some <==> (step is DetachSink || step is DrainRecording
        || step is StopListener || step is GivenUp)
    &&& start.endpoint is None <==> (step is BuildHandlers || step is FollowHttpMetrics
        || step is Listen || step is GivenUp)
    &&& start.recording ==> !(step is BuildHandlers || step is FollowHttpMetrics || step is Listen
        || step is CreateRecording || step is StopListener || step is GivenUp)
    &&& (step is AttachSink || step is StartCapture || step is FollowSessions
        || step is ReadBaseline || step is WatchExit || step is Up || step is DrainRecording)
        ==> start.recording
    &&& start.sinkAttached ==> step is StartCapture || step is FollowSessions
        || step is ReadBaseline || step is WatchExit || step is Up || step is DetachSink
    &&& (step is StartCapture || step is FollowSessions || step is ReadBaseline || step is WatchExit
        || step is Up) ==> start.sinkAttached
    &&& (step is DetachSink || step is DrainRecording || step is StopListener)
        ==> start.failure matches Some(PrimaryFailure::Capture(_))
}

/// How many steps at most are left.
pub open spec fn primaryStepsLeft(step: PrimaryStep) -> nat {
    match step {
        PrimaryStep::BuildHandlers => 9,
        PrimaryStep::FollowHttpMetrics => 8,
        PrimaryStep::Listen => 7,
        PrimaryStep::CreateRecording => 6,
        PrimaryStep::AttachSink => 5,
        PrimaryStep::StartCapture => 4,
        PrimaryStep::FollowSessions => 3,
        PrimaryStep::ReadBaseline => 2,
        PrimaryStep::WatchExit => 1,
        PrimaryStep::DetachSink => 3,
        PrimaryStep::DrainRecording => 2,
        PrimaryStep::StopListener => 1,
        PrimaryStep::Up => 0,
        PrimaryStep::GivenUp => 0,
    }
}

/// How bringing a primary listener up ended.
pub open spec fn primaryOutcome(start: PrimaryStart) -> PrimaryOutcome {
    match start.failure {
        Some(PrimaryFailure::Handlers) => PrimaryOutcome::HandlersFailed,
        Some(PrimaryFailure::Listen) => PrimaryOutcome::ListenFailed,
        Some(PrimaryFailure::Capture(detail)) => PrimaryOutcome::CaptureFailed(detail),
        None => PrimaryOutcome::Running {
            boundEndpoint: start.endpoint->Some_0,
            hasUdpRecording: start.recording,
        },
    }
}

impl PrimaryStart {
    /// A primary listener that was not begun.
    pub fn begin() -> (result: PrimaryStart)
        ensures
            result == beginningPrimary(),
            isPrimarySound(result),
    {
        PrimaryStart {
            step: PrimaryStep::BuildHandlers,
            endpoint: None,
            recording: false,
            sinkAttached: false,
            failure: None,
        }
    }

    /// What the current step's outcome leads to, until the listener stands.
    pub fn startPrimaryDataPlane(self, event: PrimaryEvent) -> (result: PrimaryStart)
        ensures
            result == nextPrimary(self, event),
    {
        match self.step {
            PrimaryStep::BuildHandlers => match event {
                PrimaryEvent::Failed(_) => PrimaryStart {
                    step: PrimaryStep::GivenUp,
                    failure: Some(PrimaryFailure::Handlers),
                    ..self
                },
                _ => PrimaryStart { step: PrimaryStep::FollowHttpMetrics, ..self },
            },
            PrimaryStep::FollowHttpMetrics => PrimaryStart { step: PrimaryStep::Listen, ..self },
            PrimaryStep::Listen => match event {
                PrimaryEvent::Listening(endpoint) => PrimaryStart {
                    step: PrimaryStep::CreateRecording,
                    endpoint: Some(endpoint),
                    ..self
                },
                _ => PrimaryStart {
                    step: PrimaryStep::GivenUp,
                    failure: Some(PrimaryFailure::Listen),
                    ..self
                },
            },
            _ => self.activateRunningServer(event),
        }
    }

    /// What the current step's outcome leads to, once the listener stands.
    pub fn activateRunningServer(self, event: PrimaryEvent) -> (result: PrimaryStart)
        requires
            !(self.step is BuildHandlers || self.step is FollowHttpMetrics || self.step is Listen),
        ensures
            result == nextPrimary(self, event),
    {
        match self.step {
            PrimaryStep::CreateRecording => match event {
                PrimaryEvent::Failed(detail) => PrimaryStart {
                    step: PrimaryStep::DetachSink,
                    failure: Some(PrimaryFailure::Capture(detail)),
                    ..self
                },
                _ => PrimaryStart { step: PrimaryStep::AttachSink, recording: true, ..self },
            },
            PrimaryStep::AttachSink => PrimaryStart {
                step: PrimaryStep::StartCapture,
                sinkAttached: true,
                ..self
            },
            PrimaryStep::StartCapture => match event {
                PrimaryEvent::Failed(detail) => PrimaryStart {
                    step: PrimaryStep::DetachSink,
                    failure: Some(PrimaryFailure::Capture(detail)),
                    ..self
                },
                _ => PrimaryStart { step: PrimaryStep::FollowSessions, ..self },
            },
            PrimaryStep::FollowSessions => PrimaryStart { step: PrimaryStep::ReadBaseline, ..self },
            PrimaryStep::ReadBaseline => PrimaryStart { step: PrimaryStep::WatchExit, ..self },
            PrimaryStep::WatchExit => PrimaryStart { step: PrimaryStep::Up, ..self },
            PrimaryStep::DetachSink => PrimaryStart {
                step: if self.recording {
                    PrimaryStep::DrainRecording
                } else {
                    PrimaryStep::StopListener
                },
                sinkAttached: false,
                ..self
            },
            PrimaryStep::DrainRecording => PrimaryStart {
                step: PrimaryStep::StopListener,
                recording: false,
                ..self
            },
            PrimaryStep::StopListener => PrimaryStart {
                step: PrimaryStep::GivenUp,
                endpoint: None,
                ..self
            },
            _ => self,
        }
    }

    /// How bringing the primary listener up ended.
    pub fn conclude(self) -> (result: PrimaryOutcome)
        requires
            isPrimarySound(self),
            self.step is Up || self.step is GivenUp,
        ensures
            result == primaryOutcome(self),
            result is Running <==> self.step is Up,
    {
        match self.failure {
            Some(PrimaryFailure::Handlers) => PrimaryOutcome::HandlersFailed,
            Some(PrimaryFailure::Listen) => PrimaryOutcome::ListenFailed,
            Some(PrimaryFailure::Capture(detail)) => PrimaryOutcome::CaptureFailed(detail),
            None => match self.endpoint {
                Some(boundEndpoint) => PrimaryOutcome::Running {
                    boundEndpoint,
                    hasUdpRecording: self.recording,
                },
                None => PrimaryOutcome::ListenFailed,
            },
        }
    }
}

/// A primary listener is up with everything it needs, or is given up and holds nothing; and it comes
/// to one of the two.
pub proof fn lawPrimaryIsWholeOrGone(start: PrimaryStart, event: PrimaryEvent)
    requires
        isPrimarySound(start),
    ensures
        isPrimarySound(nextPrimary(start, event)),
        start.step is Up ==> start.endpoint is Some && start.recording && start.sinkAttached,
        start.step is GivenUp ==> start.endpoint is None && !start.recording && !start.sinkAttached,
        primaryStepsLeft(start.step) > 0 ==> primaryStepsLeft(nextPrimary(start, event).step)
            < primaryStepsLeft(start.step),
        primaryStepsLeft(start.step) == 0 ==> start.step is Up || start.step is GivenUp,
{
}

// ---------------------------------------------------------------------------
// Taking everything down
// ---------------------------------------------------------------------------

/// What is done next to take the data plane down.
#[derive(Clone, Copy, Debug, PartialEq, Eq, Structural)]
pub enum StopStep {
    /// Wake whatever waits at a breakpoint, so that no connection outlives its listener.
    ReleaseBreakpoints,
    /// Stop the process capture, so that no captured connection meets a closed port.
    StopCapture,
    /// Lead captured datagrams nowhere.
    DetachSink,
    /// Watch for an exit no longer.
    EndExitWatch,
    /// Stop the listeners.
    StopListeners,
    /// Move the HTTP counters into the archive.
    ArchiveHttpMetrics,
    /// Let the recording of datagrams run empty.
    DrainRecording,
    /// Wait for the writes of the mirror, which gets no more of them.
    FlushMirror,
    /// Let the projection of sessions run empty.
    DrainSessions,
    /// Let the projection of HTTP counters run empty.
    DrainHttpMetrics,
    /// Archive the last sessions and settle the service.
    Settle,
    /// Everything is down.
    Down,
}

/// What a step came to.
#[derive(Debug)]
pub enum StopEvent {
    Succeeded,
    Failed(String),
    /// How stopping the two kinds of listeners went. Absent texts stand for success.
    Listeners { socks5: Option<String>, auxiliary: Option<String> },
}

/// A data plane on its way down, with what went wrong so far.
#[derive(Debug)]
pub struct ServiceStop {
    pub step: StopStep,
    pub outcomes: StopOutcomes,
}

/// The step behind a step.
pub open spec fn followingStop(step: StopStep) -> StopStep {
    match step {
        StopStep::ReleaseBreakpoints => StopStep::StopCapture,
        StopStep::StopCapture => StopStep::DetachSink,
        StopStep::DetachSink => StopStep::EndExitWatch,
        StopStep::EndExitWatch => StopStep::StopListeners,
        StopStep::StopListeners => StopStep::ArchiveHttpMetrics,
        StopStep::ArchiveHttpMetrics => StopStep::DrainRecording,
        StopStep::DrainRecording => StopStep::FlushMirror,
        StopStep::FlushMirror => StopStep::DrainSessions,
        StopStep::DrainSessions => StopStep::DrainHttpMetrics,
        StopStep::DrainHttpMetrics => StopStep::Settle,
        StopStep::Settle => StopStep::Down,
        StopStep::Down => StopStep::Down,
    }
}

/// What went wrong, with the outcome of one more step.
pub open spec fn stopNoted(step: StopStep, outcomes: StopOutcomes, event: StopEvent) -> StopOutcomes {
    match (step, event) {
        (StopStep::StopCapture, StopEvent::Failed(detail)) => StopOutcomes {
            processCapture: Some(detail),
            ..outcomes
        },
        (StopStep::StopListeners, StopEvent::Listeners { socks5, auxiliary }) => StopOutcomes {
            socks5,
            auxiliary,
            ..outcomes
        },
        (StopStep::DrainRecording, StopEvent::Failed(detail)) => StopOutcomes {
            udpRecording: Some(detail),
            ..outcomes
        },
        (StopStep::FlushMirror, StopEvent::Failed(_)) => StopOutcomes {
            mirrorFailed: true,
            ..outcomes
        },
        _ => outcomes,
    }
}

impl ServiceStop {
    /// A data plane that is about to go down.
    pub fn begin() -> (result: ServiceStop)
        ensures
            result.step == StopStep::ReleaseBreakpoints,
            result.outcomes.processCapture is None,
            result.outcomes.udpRecording is None,
            result.outcomes.socks5 is None,
            result.outcomes.auxiliary is None,
            !result.outcomes.mirrorFailed,
    {
        ServiceStop {
            step: StopStep::ReleaseBreakpoints,
            outcomes: StopOutcomes {
                processCapture: None,
                udpRecording: None,
                socks5: None,
                auxiliary: None,
                mirrorFailed: false,
            },
        }
    }

    /// Takes the outcome of the current step and moves on to the next one. A failure is noted and keeps
    /// no later step from being done.
    pub fn stopServiceExclusiveWithEvents(self, event: StopEvent) -> (result: ServiceStop)
        ensures
            result.step == followingStop(self.step),
            result.outcomes == stopNoted(self.step, self.outcomes, event),
    {
        let ServiceStop { step, outcomes } = self;
        let outcomes = match (step, event) {
            (StopStep::StopCapture, StopEvent::Failed(detail)) => StopOutcomes {
                processCapture: Some(detail),
                ..outcomes
            },
            (StopStep::StopListeners, StopEvent::Listeners { socks5, auxiliary }) => StopOutcomes {
                socks5,
                auxiliary,
                ..outcomes
            },
            (StopStep::DrainRecording, StopEvent::Failed(detail)) => StopOutcomes {
                udpRecording: Some(detail),
                ..outcomes
            },
            (StopStep::FlushMirror, StopEvent::Failed(_)) => StopOutcomes {
                mirrorFailed: true,
                ..outcomes
            },
            _ => outcomes,
        };
        let step = match step {
            StopStep::ReleaseBreakpoints => StopStep::StopCapture,
            StopStep::StopCapture => StopStep::DetachSink,
            StopStep::DetachSink => StopStep::EndExitWatch,
            StopStep::EndExitWatch => StopStep::StopListeners,
            StopStep::StopListeners => StopStep::ArchiveHttpMetrics,
            StopStep::ArchiveHttpMetrics => StopStep::DrainRecording,
            StopStep::DrainRecording => StopStep::FlushMirror,
            StopStep::FlushMirror => StopStep::DrainSessions,
            StopStep::DrainSessions => StopStep::DrainHttpMetrics,
            StopStep::DrainHttpMetrics => StopStep::Settle,
            StopStep::Settle => StopStep::Down,
            StopStep::Down => StopStep::Down,
        };
        ServiceStop { step, outcomes }
    }
}

/// How many steps lie behind a step.
pub open spec fn stopStepsDone(step: StopStep) -> nat {
    match step {
        StopStep::ReleaseBreakpoints => 0,
        StopStep::StopCapture => 1,
        StopStep::DetachSink => 2,
        StopStep::EndExitWatch => 3,
        StopStep::StopListeners => 4,
        StopStep::ArchiveHttpMetrics => 5,
        StopStep::DrainRecording => 6,
        StopStep::FlushMirror => 7,
        StopStep::DrainSessions => 8,
        StopStep::DrainHttpMetrics => 9,
        StopStep::Settle => 10,
        StopStep::Down => 11,
    }
}

/// No step of a stop is left out or done twice, whatever fails: waiting connections are woken and the
/// capture ends before a listener closes, the mirror is flushed once nothing feeds it, and the service
/// is settled last.
pub proof fn lawStopKeepsItsOrder(step: StopStep, other: StopStep)
    ensures
        step != StopStep::Down ==> stopStepsDone(followingStop(step)) == stopStepsDone(step) + 1,
        stopStepsDone(step) == stopStepsDone(other) ==> step == other,
        stopStepsDone(StopStep::ReleaseBreakpoints) < stopStepsDone(StopStep::StopListeners),
        stopStepsDone(StopStep::StopCapture) < stopStepsDone(StopStep::StopListeners),
        stopStepsDone(StopStep::StopListeners) < stopStepsDone(StopStep::FlushMirror),
        stopStepsDone(StopStep::StopListeners) < stopStepsDone(StopStep::ArchiveHttpMetrics),
        stopStepsDone(StopStep::DrainSessions) < stopStepsDone(StopStep::Settle),
        followingStop(step) == StopStep::Down ==> step == StopStep::Settle || step
            == StopStep::Down,
{
}

// ---------------------------------------------------------------------------
// Clearing a lost data plane away
// ---------------------------------------------------------------------------

/// What is done next once the data plane was lost.
#[derive(Clone, Copy, Debug, PartialEq, Eq, Structural)]
pub enum ExitStep {
    /// Wait until no other operation is under way.
    AwaitTurn,
    /// Note that the service is lost and publish it.
    Notice,
    /// Stop the process capture.
    StopCapture,
    /// Lead captured datagrams nowhere.
    DetachSink,
    /// Let the recording of datagrams run empty.
    DrainRecording,
    /// Stop the listener.
    StopListener,
    /// Stop the auxiliary listeners.
    StopAuxiliary,
    /// Move the HTTP counters into the archive.
    ArchiveHttpMetrics,
    /// Let the projection of HTTP counters run empty.
    DrainHttpMetrics,
    /// Let the projection of sessions run empty.
    DrainSessions,
    /// Archive the last sessions.
    ArchiveSessions,
    /// Let the lost capture generation go.
    ReleaseGeneration,
    PublishRuntimeViews,
    /// Let other operations go on.
    Done,
}

/// The step behind a step. `lost` is what noting the exit said: a service that did not run is left
/// alone.
pub open spec fn followingExit(step: ExitStep, lost: bool) -> ExitStep {
    match step {
        ExitStep::AwaitTurn => ExitStep::Notice,
        ExitStep::Notice => if lost {
            ExitStep::StopCapture
        } else {
            ExitStep::Done
        },
        ExitStep::StopCapture => ExitStep::DetachSink,
        ExitStep::DetachSink => ExitStep::DrainRecording,
        ExitStep::DrainRecording => ExitStep::StopListener,
        ExitStep::StopListener => ExitStep::StopAuxiliary,
        ExitStep::StopAuxiliary => ExitStep::ArchiveHttpMetrics,
        ExitStep::ArchiveHttpMetrics => ExitStep::DrainHttpMetrics,
        ExitStep::DrainHttpMetrics => ExitStep::DrainSessions,
        ExitStep::DrainSessions => ExitStep::ArchiveSessions,
        ExitStep::ArchiveSessions => ExitStep::ReleaseGeneration,
        ExitStep::ReleaseGeneration => ExitStep::PublishRuntimeViews,
        ExitStep::PublishRuntimeViews => ExitStep::Done,
        ExitStep::Done => ExitStep::Done,
    }
}

impl ExitStep {
    /// What follows a step. `lost` is what noting the exit said.
    pub fn handleUnexpectedServerExit(self, lost: bool) -> (result: ExitStep)
        ensures
            result == followingExit(self, lost),
    {
        match self {
            ExitStep::AwaitTurn => ExitStep::Notice,
            ExitStep::Notice => if lost {
                ExitStep::StopCapture
            } else {
                ExitStep::Done
            },
            ExitStep::StopCapture => ExitStep::DetachSink,
            ExitStep::DetachSink => ExitStep::DrainRecording,
            ExitStep::DrainRecording => ExitStep::StopListener,
            ExitStep::StopListener => ExitStep::StopAuxiliary,
            ExitStep::StopAuxiliary => ExitStep::ArchiveHttpMetrics,
            ExitStep::ArchiveHttpMetrics => ExitStep::DrainHttpMetrics,
            ExitStep::DrainHttpMetrics => ExitStep::DrainSessions,
            ExitStep::DrainSessions => ExitStep::ArchiveSessions,
            ExitStep::ArchiveSessions => ExitStep::ReleaseGeneration,
            ExitStep::ReleaseGeneration => ExitStep::PublishRuntimeViews,
            ExitStep::PublishRuntimeViews => ExitStep::Done,
            ExitStep::Done => ExitStep::Done,
        }
    }
}

/// How many steps at most are left.
pub open spec fn exitStepsLeft(step: ExitStep) -> nat {
    match step {
        ExitStep::AwaitTurn => 13,
        ExitStep::Notice => 12,
        ExitStep::StopCapture => 11,
        ExitStep::DetachSink => 10,
        ExitStep::DrainRecording => 9,
        ExitStep::StopListener => 8,
        ExitStep::StopAuxiliary => 7,
        ExitStep::ArchiveHttpMetrics => 6,
        ExitStep::DrainHttpMetrics => 5,
        ExitStep::DrainSessions => 4,
        ExitStep::ArchiveSessions => 3,
        ExitStep::ReleaseGeneration => 2,
        ExitStep::PublishRuntimeViews => 1,
        ExitStep::Done => 0,
    }
}

/// Everything of a lost data plane is cleared away before another operation may begin: other
/// operations go on only at the end, and only a service that did not run skips a step.
pub proof fn lawLostDataPlaneIsClearedAway(step: ExitStep, lost: bool)
    requires
        step != ExitStep::Done,
    ensures
        step != ExitStep::Notice || lost ==> exitStepsLeft(followingExit(step, lost))
            == exitStepsLeft(step) - 1,
        followingExit(step, lost) == ExitStep::Done ==> step == ExitStep::PublishRuntimeViews || (
        step == ExitStep::Notice && !lost),
{
}

// ---------------------------------------------------------------------------
// What a start runs on
// ---------------------------------------------------------------------------

/// A whole configuration.
#[derive(Clone, Debug)]
pub struct ConfigurationTransactionSnapshot {
    pub socks5: Socks5Config,
    pub http: ManagedHttpProxyConfiguration,
    pub processCapture: ProcessCaptureConfiguration,
    pub multiAccount: MultiAccountConfiguration,
    pub startServiceOnLaunch: bool,
}

/// How the data plane asks the account service.
#[derive(Debug)]
pub struct AccountServiceClientConfig {
    pub endpoint: String,
    pub internalToken: String,
    pub synchronizationIntervalMilliseconds: u64,
    pub requestTimeoutMilliseconds: u64,
}

/// What a start runs on.
#[derive(Debug)]
pub struct ServiceStartPlan {
    pub socks5: Socks5Config,
    pub accountService: Option<AccountServiceClientConfig>,
    pub http: ManagedHttpProxyConfiguration,
    pub processCapture: ProcessCaptureConfiguration,
    pub multiAccount: MultiAccountConfiguration,
}

/// The configuration that a start runs on: the candidate, or the one in force.
pub open spec fn chosenSnapshot(
    current: ConfigurationTransactionSnapshot,
    candidate: Option<ConfigurationTransactionSnapshot>,
) -> ConfigurationTransactionSnapshot {
    match candidate {
        Some(snapshot) => snapshot,
        None => current,
    }
}

/// Plans a start. Under an enabled remote entry the account service alone decides who may use the
/// proxy; the capture leads to the listener.
pub fn prepareServiceStart(
    current: ConfigurationTransactionSnapshot,
    candidate: Option<ConfigurationTransactionSnapshot>,
    endpoint: &AccountServiceEndpoint,
) -> (result: ServiceStartPlan)
    ensures
        ({
            let chosen = chosenSnapshot(current, candidate);
            &&& result.http == chosen.http
            &&& result.multiAccount == chosen.multiAccount
            &&& result.processCapture == (ProcessCaptureConfiguration {
                proxyPort: chosen.socks5.listenPort,
                proxyAddress: chosen.socks5.listenHost.address,
                ..chosen.processCapture
            })
            &&& if chosen.multiAccount.enabled {
                &&& result.socks5 == (Socks5Config {
                    authenticationMode: AuthenticationMode::AccountService,
                    users: result.socks5.users,
                    ..chosen.socks5
                })
                &&& result.socks5.users@.len() == 0
                &&& result.accountService matches Some(client)
                &&& client.endpoint@ == endpoint.internalEndpoint@
                &&& client.internalToken@ == endpoint.internalToken@
                &&& client.synchronizationIntervalMilliseconds == 2_000
                &&& client.requestTimeoutMilliseconds == 3_000
            } else {
                result.socks5 == chosen.socks5 && result.accountService is None
            }
        }),
{
    let chosen = match candidate {
        Some(snapshot) => snapshot,
        None => current,
    };
    let mut socks5 = chosen.socks5;
    let mut processCapture = chosen.processCapture;
    processCapture.proxyPort = socks5.listenPort;
    processCapture.proxyAddress = socks5.listenHost.address;
    let accountService = if chosen.multiAccount.enabled {
        socks5.authenticationMode = AuthenticationMode::AccountService;
        socks5.users = Vec::new();
        Some(
            AccountServiceClientConfig {
                endpoint: copyText(endpoint.internalEndpoint.as_str()),
                internalToken: copyText(endpoint.internalToken.as_str()),
                synchronizationIntervalMilliseconds: 2_000,
                requestTimeoutMilliseconds: 3_000,
            },
        )
    } else {
        None
    };
    ServiceStartPlan {
        socks5,
        accountService,
        http: chosen.http,
        processCapture,
        multiAccount: chosen.multiAccount,
    }
}

impl ServiceStartPlan {
    /// Leads the capture to the inner entry of the listener.
    pub fn leadCapture(&mut self, entry: Endpoint)
        ensures
            *final(self) == (ServiceStartPlan {
                processCapture: ProcessCaptureConfiguration {
                    proxyPort: entry.port,
                    proxyAddress: entry.address,
                    ..old(self).processCapture
                },
                ..*old(self)
            }),
    {
        self.processCapture.proxyAddress = entry.address;
        self.processCapture.proxyPort = entry.port;
    }
}

/// The configuration in force, and how often that of the account service has changed.
#[derive(Debug)]
pub struct AuthoritativeConfiguration {
    pub current: ConfigurationTransactionSnapshot,
    pub multiAccountGeneration: u64,
}

/// The next generation; past the largest one counting begins anew.
pub open spec fn nextGeneration(generation: u64) -> u64 {
    if generation == u64::MAX {
        0
    } else {
        (generation + 1) as u64
    }
}

impl AuthoritativeConfiguration {
    /// Puts a whole configuration into force. A change of the account service begins a new generation.
    pub fn commitConfigurationMemory(
        &mut self,
        configuration: ConfigurationTransactionSnapshot,
        multiAccountChanged: bool,
    )
        ensures
            final(self).current == configuration,
            final(self).multiAccountGeneration == if multiAccountChanged {
                nextGeneration(old(self).multiAccountGeneration)
            } else {
                old(self).multiAccountGeneration
            },
    {
        self.current = configuration;
        if multiAccountChanged {
            self.multiAccountGeneration = self.multiAccountGeneration.wrapping_add(1);
        }
    }

    /// Puts the former configuration back into force. This always begins a new generation, so that
    /// nothing observed under the candidate counts any more.
    pub fn restoreConfigurationMemoryAndPublish(
        &mut self,
        configuration: ConfigurationTransactionSnapshot,
    )
        ensures
            final(self).current == configuration,
            final(self).multiAccountGeneration == nextGeneration(old(self).multiAccountGeneration),
    {
        self.commitConfigurationMemory(configuration, true);
    }
}

impl ConfigurationTransactionSnapshot {
    /// The configuration as it is stored, secrets included.
    pub fn persistedConfiguration(&self) -> (result: ConfigurationUpdate)
        ensures
            isStoredForm(
                result,
                self.socks5@,
                self.http@,
                self.processCapture@,
                self.multiAccount@,
                self.startServiceOnLaunch,
            ),
    {
        ConfigurationUpdate::fromInternal(
            &self.socks5,
            &self.http,
            &self.processCapture,
            &self.multiAccount,
            self.startServiceOnLaunch,
        )
    }
}

/// A data plane that meets no failure comes up step by step: its handlers, its listener, its recording, its sink,
/// its capture, and then what follows it.
pub proof fn lawPrimaryComesUp(start: PrimaryStart, endpoint: String)
    ensures
        ({
            let next = |step: PrimaryStep, event: PrimaryEvent| nextPrimary(
                PrimaryStart { step, ..start },
                event,
            );
            &&& beginningPrimary().step is BuildHandlers
            &&& next(PrimaryStep::BuildHandlers, PrimaryEvent::Succeeded).step is FollowHttpMetrics
            &&& next(PrimaryStep::FollowHttpMetrics, PrimaryEvent::Succeeded).step is Listen
            &&& next(PrimaryStep::Listen, PrimaryEvent::Listening(endpoint)).step is CreateRecording
            &&& next(PrimaryStep::Listen, PrimaryEvent::Listening(endpoint)).endpoint == Some(
                endpoint,
            )
            &&& next(PrimaryStep::CreateRecording, PrimaryEvent::Succeeded).step is AttachSink
            &&& next(PrimaryStep::CreateRecording, PrimaryEvent::Succeeded).recording
            &&& next(PrimaryStep::AttachSink, PrimaryEvent::Succeeded).step is StartCapture
            &&& next(PrimaryStep::StartCapture, PrimaryEvent::Succeeded).step is FollowSessions
            &&& next(PrimaryStep::FollowSessions, PrimaryEvent::Succeeded).step is ReadBaseline
            &&& next(PrimaryStep::ReadBaseline, PrimaryEvent::Succeeded).step is WatchExit
            &&& next(PrimaryStep::WatchExit, PrimaryEvent::Succeeded).step is Up
        }),
{
}

/// A data plane that fails on the way is taken down again, in the opposite order, and tells what failed.
pub proof fn lawPrimaryIsTakenDown(start: PrimaryStart, detail: String)
    ensures
        ({
            let next = |step: PrimaryStep, event: PrimaryEvent| nextPrimary(
                PrimaryStart { step, ..start },
                event,
            );
            let failed = PrimaryEvent::Failed(detail);
            &&& next(PrimaryStep::BuildHandlers, failed).step is GivenUp
            &&& next(PrimaryStep::BuildHandlers, failed).failure == Some(PrimaryFailure::Handlers)
            &&& next(PrimaryStep::Listen, failed).step is GivenUp
            &&& next(PrimaryStep::Listen, failed).failure == Some(PrimaryFailure::Listen)
            &&& next(PrimaryStep::CreateRecording, failed).step is DetachSink
            &&& next(PrimaryStep::CreateRecording, failed).failure == Some(
                PrimaryFailure::Capture(detail),
            )
            &&& next(PrimaryStep::StartCapture, failed).step is DetachSink
            &&& next(PrimaryStep::StartCapture, failed).failure == Some(
                PrimaryFailure::Capture(detail),
            )
            &&& next(PrimaryStep::DetachSink, PrimaryEvent::Succeeded).step == if start.recording {
                PrimaryStep::DrainRecording
            } else {
                PrimaryStep::StopListener
            }
            &&& next(PrimaryStep::DrainRecording, PrimaryEvent::Succeeded).step is StopListener
            &&& next(PrimaryStep::StopListener, PrimaryEvent::Succeeded).step is GivenUp
        }),
        start.failure is None ==> (primaryOutcome(start) matches PrimaryOutcome::Running {
            boundEndpoint,
            hasUdpRecording,
        } && (start.endpoint matches Some(endpoint) ==> boundEndpoint == endpoint)
            && hasUdpRecording == start.recording),
        start.failure == Some(PrimaryFailure::Handlers) ==> primaryOutcome(start) is HandlersFailed,
        start.failure == Some(PrimaryFailure::Listen) ==> primaryOutcome(start) is ListenFailed,
        start.failure == Some(PrimaryFailure::Capture(detail)) ==> primaryOutcome(start)
            == PrimaryOutcome::CaptureFailed(detail),
{
}

/// What fails while a service is taken down is noted under the part that it belongs to, and nothing else is.
pub proof fn lawStopNotesItsFailures(outcomes: StopOutcomes, detail: String, other: Option<String>)
    ensures
        stopNoted(StopStep::StopCapture, outcomes, StopEvent::Failed(detail)) == (StopOutcomes {
            processCapture: Some(detail),
            ..outcomes
        }),
        stopNoted(StopStep::DrainRecording, outcomes, StopEvent::Failed(detail)) == (StopOutcomes {
            udpRecording: Some(detail),
            ..outcomes
        }),
        stopNoted(StopStep::FlushMirror, outcomes, StopEvent::Failed(detail)) == (StopOutcomes {
            mirrorFailed: true,
            ..outcomes
        }),
        stopNoted(
            StopStep::StopListeners,
            outcomes,
            StopEvent::Listeners { socks5: other, auxiliary: Some(detail) },
        ) == (StopOutcomes { socks5: other, auxiliary: Some(detail), ..outcomes }),
        forall|step: StopStep| #[trigger]
            stopNoted(step, outcomes, StopEvent::Succeeded) == outcomes,
{
}

/// A service is taken down in order: what waits is let go, the capture, the sink and the watch end, the listeners
/// close, and then what they left is archived and drained.
pub proof fn lawStopTakesItsSteps()
    ensures
        followingStop(StopStep::ReleaseBreakpoints) == StopStep::StopCapture,
        followingStop(StopStep::StopCapture) == StopStep::DetachSink,
        followingStop(StopStep::DetachSink) == StopStep::EndExitWatch,
        followingStop(StopStep::EndExitWatch) == StopStep::StopListeners,
        followingStop(StopStep::StopListeners) == StopStep::ArchiveHttpMetrics,
        followingStop(StopStep::ArchiveHttpMetrics) == StopStep::DrainRecording,
        followingStop(StopStep::DrainRecording) == StopStep::FlushMirror,
        followingStop(StopStep::FlushMirror) == StopStep::DrainSessions,
        followingStop(StopStep::DrainSessions) == StopStep::DrainHttpMetrics,
        followingStop(StopStep::DrainHttpMetrics) == StopStep::Settle,
        followingStop(StopStep::Settle) == StopStep::Down,
{
}

/// A data plane that was lost is cleared away in order; where it turns out not to be lost nothing is done.
pub proof fn lawLossIsClearedInOrder()
    ensures
        followingExit(ExitStep::AwaitTurn, true) == ExitStep::Notice,
        followingExit(ExitStep::AwaitTurn, false) == ExitStep::Notice,
        followingExit(ExitStep::Notice, true) == ExitStep::StopCapture,
        followingExit(ExitStep::Notice, false) == ExitStep::Done,
        followingExit(ExitStep::StopCapture, true) == ExitStep::DetachSink,
        followingExit(ExitStep::DetachSink, true) == ExitStep::DrainRecording,
        followingExit(ExitStep::DrainRecording, true) == ExitStep::StopListener,
        followingExit(ExitStep::StopListener, true) == ExitStep::StopAuxiliary,
        followingExit(ExitStep::StopAuxiliary, true) == ExitStep::ArchiveHttpMetrics,
        followingExit(ExitStep::ArchiveHttpMetrics, true) == ExitStep::DrainHttpMetrics,
        followingExit(ExitStep::DrainHttpMetrics, true) == ExitStep::DrainSessions,
        followingExit(ExitStep::DrainSessions, true) == ExitStep::ArchiveSessions,
        followingExit(ExitStep::ArchiveSessions, true) == ExitStep::ReleaseGeneration,
        followingExit(ExitStep::ReleaseGeneration, true) == ExitStep::PublishRuntimeViews,
        followingExit(ExitStep::PublishRuntimeViews, true) == ExitStep::Done,
{
}

/// A start goes by the candidate where there is one, else by what is in force.
pub proof fn lawCandidateGoesFirst(
    current: ConfigurationTransactionSnapshot,
    candidate: ConfigurationTransactionSnapshot,
    generation: u64,
)
    ensures
        chosenSnapshot(current, Some(candidate)) == candidate,
        chosenSnapshot(current, None) == current,
        generation < u64::MAX ==> nextGeneration(generation) == generation + 1,
{
}

} // verus!
