//! Starting, stopping and losing the proxy data plane.

use crate::controlApi::httpControl::{
    detailedError, plainError, ApiError, ApiErrorView,
};
use crate::controlApi::listeners::{
    aggregateListenerErrors, aggregatedErrors, errorView, listenerError, listenerSnapshots,
    plainListenerError, showsListener, ListenerErrorSnapshot, ListenerErrorView, ListenerSnapshots,
};
use crate::controlApi::serviceState::ServiceState;
use crate::localization::{catalogComplete, ErrorCode, LocaleCatalog};
use crate::text::{concatText, copyText, joinTexts, joined, optionalView, views};
use vstd::prelude::*;

verus! {

/// The service as the control plane owns it: its state, the resources it holds and its last
/// failure. `boundEndpoint` is present exactly while the fused listener runs.
#[derive(Debug)]
pub struct ManagedService {
    pub state: ServiceState,
    pub boundEndpoint: Option<String>,
    pub hasAuxiliary: bool,
    pub hasUdpRecording: bool,
    pub hasCaptureGeneration: bool,
    pub socksError: Option<ListenerErrorSnapshot>,
    pub errorMessage: Option<String>,
}

/// The mathematical value of the service.
pub struct ServiceView {
    pub state: ServiceState,
    pub endpoint: Option<Seq<char>>,
    pub hasAuxiliary: bool,
    pub hasUdpRecording: bool,
    pub hasCaptureGeneration: bool,
    pub socksError: Option<ListenerErrorView>,
    pub errorMessage: Option<Seq<char>>,
}

impl View for ManagedService {
    type V = ServiceView;

    open spec fn view(&self) -> ServiceView {
        ServiceView {
            state: self.state,
            endpoint: optionalView(self.boundEndpoint),
            hasAuxiliary: self.hasAuxiliary,
            hasUdpRecording: self.hasUdpRecording,
            hasCaptureGeneration: self.hasCaptureGeneration,
            socksError: errorView(self.socksError),
            errorMessage: optionalView(self.errorMessage),
        }
    }
}

/// What holds whenever no lifecycle operation is under way or one has just begun: the data plane
/// holds resources only while it runs, and it never runs without its listener.
pub open spec fn serviceValid(service: ServiceView) -> bool {
    &&& service.state == ServiceState::Running <==> service.endpoint is Some
    &&& service.state != ServiceState::Running ==> !service.hasAuxiliary && !service.hasUdpRecording
    &&& service.state == ServiceState::Stopped ==> service.socksError is None
        && service.errorMessage is None
}

impl ManagedService {
    /// A service that was never started.
    pub fn new() -> (result: ManagedService)
        ensures
            serviceValid(result@),
            result.state == ServiceState::Stopped,
            !result.hasCaptureGeneration,
    {
        ManagedService {
            state: ServiceState::Stopped,
            boundEndpoint: None,
            hasAuxiliary: false,
            hasUdpRecording: false,
            hasCaptureGeneration: false,
            socksError: None,
            errorMessage: None,
        }
    }

    /// The public state of the listeners.
    pub fn listeners(&self, httpEnabled: bool) -> (result: ListenerSnapshots)
        ensures
            showsListener(result.socks5, true, self@.endpoint, self@.socksError),
            showsListener(result.httpProxy, httpEnabled, self@.endpoint, self@.socksError),
    {
        listenerSnapshots(&self.boundEndpoint, &self.socksError, httpEnabled)
    }
}

// ---------------------------------------------------------------------------
// Starting
// ---------------------------------------------------------------------------

/// Whether a service may be started.
pub open spec fn isStartable(state: ServiceState) -> bool {
    state == ServiceState::Stopped || state == ServiceState::Faulted
}

/// A service whose start has begun.
pub open spec fn starting(service: ServiceView) -> ServiceView {
    ServiceView { state: ServiceState::Starting, socksError: None, errorMessage: None, ..service }
}

/// A service whose account service did not start.
pub open spec fn accountStartFailed(service: ServiceView) -> ServiceView {
    ServiceView {
        state: ServiceState::Faulted,
        socksError: Some(
            plainListenerError("accountServiceStartFailed"@, "error.serviceStartFailed"@),
        ),
        errorMessage: Some("[accountService] startFailed"@),
        ..service
    }
}

/// How bringing up the fused listener and the process capture ended.
#[derive(Debug)]
pub enum PrimaryOutcome {
    /// A protocol handler could not be built.
    HandlersFailed,
    /// The listener could not be bound.
    ListenFailed,
    /// The process capture did not start; listener and recording were taken down again.
    CaptureFailed(String),
    /// Everything runs on this endpoint.
    Running { boundEndpoint: String, hasUdpRecording: bool },
}

/// How bringing up the auxiliary listeners ended.
#[derive(Debug)]
pub enum AuxiliaryOutcome {
    NotNeeded,
    Started,
    Failed(String),
}

/// Auxiliary listeners are brought up only beside a running primary one, and only where a rule is
/// enabled.
pub fn auxiliaryNeeded(primaryRunning: bool, anyReverseProxy: bool, anyPortForward: bool) -> (result:
    bool)
    ensures
        result == (primaryRunning && (anyReverseProxy || anyPortForward)),
{
    primaryRunning && (anyReverseProxy || anyPortForward)
}

/// Only a running primary listener makes a started service; auxiliary listeners never stand in.
pub fn primaryDataPlaneCommitSucceeded(fusedSocksRunning: bool, _auxiliaryListenersRunning: bool) -> (result:
    bool)
    ensures
        result == fusedSocksRunning,
{
    fusedSocksRunning
}

/// The service after the primary listener.
pub open spec fn afterPrimary(service: ServiceView, outcome: PrimaryOutcome) -> ServiceView {
    match outcome {
        PrimaryOutcome::HandlersFailed => ServiceView {
            socksError: Some(
                plainListenerError("proxyListenerStartFailed"@, "error.serviceStartFailed"@),
            ),
            ..service
        },
        PrimaryOutcome::ListenFailed => ServiceView {
            socksError: Some(plainListenerError("socks5StartFailed"@, "error.serviceStartFailed"@)),
            ..service
        },
        PrimaryOutcome::CaptureFailed(detail) => ServiceView {
            socksError: Some(
                plainListenerError("processCaptureStartFailed"@, "error.serviceStartFailed"@),
            ),
            errorMessage: Some("[processCapture] "@ + detail@),
            ..service
        },
        PrimaryOutcome::Running { boundEndpoint, hasUdpRecording } => ServiceView {
            endpoint: Some(boundEndpoint@),
            hasUdpRecording,
            hasCaptureGeneration: true,
            ..service
        },
    }
}

/// The service after the auxiliary listeners.
pub open spec fn afterAuxiliary(service: ServiceView, outcome: AuxiliaryOutcome) -> ServiceView {
    if service.endpoint is None {
        service
    } else {
        match outcome {
            AuxiliaryOutcome::NotNeeded => service,
            AuxiliaryOutcome::Started => ServiceView { hasAuxiliary: true, ..service },
            AuxiliaryOutcome::Failed(code) => ServiceView {
                errorMessage: Some("[auxiliary] "@ + code@),
                ..service
            },
        }
    }
}

/// The service once its start is committed.
pub open spec fn startCommitted(catalogs: Seq<LocaleCatalog>, service: ServiceView) -> ServiceView {
    ServiceView {
        state: if service.endpoint is Some {
            ServiceState::Running
        } else {
            ServiceState::Faulted
        },
        errorMessage: if service.errorMessage is Some {
            service.errorMessage
        } else {
            aggregatedErrors(catalogs, service.socksError)
        },
        ..service
    }
}

/// The service after a whole start.
pub open spec fn started(
    catalogs: Seq<LocaleCatalog>,
    service: ServiceView,
    primary: PrimaryOutcome,
    auxiliary: AuxiliaryOutcome,
) -> ServiceView {
    startCommitted(catalogs, afterAuxiliary(afterPrimary(service, primary), auxiliary))
}

/// The error that answers a failed start.
pub open spec fn startError(message: Option<Seq<char>>) -> ApiErrorView {
    match message {
        Some(detail) => detailedError(500, ErrorCode::ServiceStartFailed, detail),
        None => plainError(500, ErrorCode::ServiceStartFailed),
    }
}

impl ManagedService {
    /// Begins a start: only a stopped or faulted service may be started, and its former failure is
    /// forgotten.
    pub fn beginStart(&mut self) -> (result: Result<(), ApiError>)
        ensures
            result is Ok <==> isStartable(old(self).state),
            match result {
                Ok(_) => final(self)@ == starting(old(self)@),
                Err(error) => *final(self) == *old(self) && error@ == plainError(
                    409,
                    ErrorCode::ServiceNotStartable,
                ),
            },
    {
        match self.state {
            ServiceState::Stopped | ServiceState::Faulted => {
                self.state = ServiceState::Starting;
                self.socksError = None;
                self.errorMessage = None;
                Ok(())
            },
            _ => Err(ApiError::conflict(ErrorCode::ServiceNotStartable)),
        }
    }

    /// Ends a start whose account service did not come up. The diagnostic answers the caller only;
    /// the public state keeps a fixed text.
    pub fn commitAccountServiceStartFailure(&mut self, detail: String) -> (result: ApiError)
        ensures
            final(self)@ == accountStartFailed(old(self)@),
            result@ == detailedError(500, ErrorCode::ServiceStartFailed, detail@),
    {
        self.state = ServiceState::Faulted;
        self.socksError =
        Some(listenerError("accountServiceStartFailed", "error.serviceStartFailed"));
        self.errorMessage = Some(copyText("[accountService] startFailed"));
        ApiError::internal(ErrorCode::ServiceStartFailed).withDetail(detail)
    }

    fn recordPrimary(&mut self, outcome: PrimaryOutcome)
        ensures
            final(self)@ == afterPrimary(old(self)@, outcome),
    {
        match outcome {
            PrimaryOutcome::HandlersFailed => {
                self.socksError =
                Some(listenerError("proxyListenerStartFailed", "error.serviceStartFailed"));
            },
            PrimaryOutcome::ListenFailed => {
                self.socksError =
                Some(listenerError("socks5StartFailed", "error.serviceStartFailed"));
            },
            PrimaryOutcome::CaptureFailed(detail) => {
                self.socksError =
                Some(listenerError("processCaptureStartFailed", "error.serviceStartFailed"));
                self.errorMessage = Some(concatText("[processCapture] ", detail.as_str()));
            },
            PrimaryOutcome::Running { boundEndpoint, hasUdpRecording } => {
                self.boundEndpoint = Some(boundEndpoint);
                self.hasUdpRecording = hasUdpRecording;
                self.hasCaptureGeneration = true;
            },
        }
    }

    fn recordAuxiliary(&mut self, outcome: AuxiliaryOutcome)
        ensures
            final(self)@ == afterAuxiliary(old(self)@, outcome),
    {
        if self.boundEndpoint.is_none() {
            return ;
        }
        match outcome {
            AuxiliaryOutcome::NotNeeded => {},
            AuxiliaryOutcome::Started => {
                self.hasAuxiliary = true;
            },
            AuxiliaryOutcome::Failed(code) => {
                self.errorMessage = Some(concatText("[auxiliary] ", code.as_str()));
            },
        }
    }

    /// Ends a start: the service runs exactly where its primary listener does, and everything else
    /// is an error. A failed auxiliary listener is a diagnostic, not a failed start.
    pub fn finishStart(
        &mut self,
        primary: PrimaryOutcome,
        auxiliary: AuxiliaryOutcome,
        catalogs: &Vec<LocaleCatalog>,
    ) -> (result: Result<(), ApiError>)
        requires
            old(self).state == ServiceState::Starting,
            old(self).boundEndpoint is None,
            catalogComplete(catalogs@),
        ensures
            final(self)@ == started(catalogs@, old(self)@, primary, auxiliary),
            result is Ok <==> primary is Running,
            result is Ok <==> final(self).state == ServiceState::Running,
            result matches Err(error) ==> error@ == startError(final(self)@.errorMessage),
    {
        self.recordPrimary(primary);
        self.recordAuxiliary(auxiliary);
        let running = primaryDataPlaneCommitSucceeded(
            self.boundEndpoint.is_some(),
            self.hasAuxiliary,
        );
        if self.errorMessage.is_none() {
            self.errorMessage = aggregateListenerErrors(&self.socksError, catalogs);
        }
        if running {
            self.state = ServiceState::Running;
            return Ok(());
        }
        self.state = ServiceState::Faulted;
        match &self.errorMessage {
            Some(detail) => Err(
                ApiError::internal(ErrorCode::ServiceStartFailed).withDetail(
                    copyText(detail.as_str()),
                ),
            ),
            None => Err(ApiError::internal(ErrorCode::ServiceStartFailed)),
        }
    }
}

// ---------------------------------------------------------------------------
// Stopping
// ---------------------------------------------------------------------------

/// Whether the resources of a service may be taken down.
pub fn serviceStateCanEnterStop(state: ServiceState) -> (result: bool)
    ensures
        result == (state == ServiceState::Running || state == ServiceState::Faulted),
{
    match state {
        ServiceState::Running | ServiceState::Faulted => true,
        _ => false,
    }
}

/// What stopping a service takes.
#[derive(Debug)]
pub enum StopPlan {
    /// It is stopped already, or was faulted without holding anything.
    Nothing,
    /// The resources it held are to be taken down; then `finishStop` settles it.
    TakeDown { listener: bool, auxiliary: bool, udpRecording: bool },
}

/// How taking the resources down ended. Absent texts stand for success.
#[derive(Debug)]
pub struct StopOutcomes {
    pub processCapture: Option<String>,
    pub udpRecording: Option<String>,
    pub socks5: Option<String>,
    pub auxiliary: Option<String>,
    pub mirrorFailed: bool,
}

/// A stopped service.
pub open spec fn stopped(service: ServiceView) -> ServiceView {
    ServiceView { state: ServiceState::Stopped, socksError: None, errorMessage: None, ..service }
}

/// A service whose resources are being taken down.
pub open spec fn stopping(service: ServiceView) -> ServiceView {
    ServiceView {
        state: ServiceState::Stopping,
        endpoint: None,
        hasAuxiliary: false,
        hasUdpRecording: false,
        ..service
    }
}

/// One labelled diagnostic, where there is something to report.
pub open spec fn labelled(label: Seq<char>, text: Option<Seq<char>>) -> Seq<Seq<char>> {
    match text {
        Some(detail) => seq![label + detail],
        None => Seq::empty(),
    }
}

/// The diagnostics of a stop, in a fixed order.
pub open spec fn stopDiagnostics(outcomes: StopOutcomes) -> Seq<Seq<char>> {
    labelled("[processCapture] "@, optionalView(outcomes.processCapture)) + labelled(
        "[udpRecording] "@,
        optionalView(outcomes.udpRecording),
    ) + labelled("[socks5] "@, optionalView(outcomes.socks5)) + labelled(
        "[auxiliary] "@,
        optionalView(outcomes.auxiliary),
    ) + if outcomes.mirrorFailed {
        seq!["[mirror] mirrorFlushFailed"@]
    } else {
        Seq::empty()
    }
}

/// The service once its resources are down.
pub open spec fn takenDown(
    catalogs: Seq<LocaleCatalog>,
    service: ServiceView,
    outcomes: StopOutcomes,
) -> ServiceView {
    let socksError = if outcomes.socks5 is Some {
        Some(plainListenerError("socks5StopFailed"@, "error.serviceStopFailed"@))
    } else {
        service.socksError
    };
    if stopDiagnostics(outcomes).len() == 0 {
        stopped(ServiceView { hasCaptureGeneration: false, ..service })
    } else {
        ServiceView {
            state: ServiceState::Faulted,
            hasCaptureGeneration: false,
            socksError,
            errorMessage: aggregatedErrors(catalogs, socksError),
            ..service
        }
    }
}

fn pushLabelled(target: &mut Vec<String>, label: &str, text: &Option<String>)
    ensures
        views(final(target)@) == views(old(target)@) + labelled(label@, optionalView(*text)),
{
    let ghost before = views(target@);
    match text {
        Some(detail) => {
            let line = concatText(label, detail.as_str());
            target.push(line);
            assert(views(target@) == before + seq![label@ + detail@]);
        },
        None => {
            assert(views(target@) == before + Seq::<Seq<char>>::empty());
        },
    }
}

fn collectStopDiagnostics(outcomes: &StopOutcomes) -> (result: Vec<String>)
    ensures
        views(result@) == stopDiagnostics(*outcomes),
{
    let mut lines: Vec<String> = Vec::new();
    assert(views(lines@) == Seq::<Seq<char>>::empty());
    pushLabelled(&mut lines, "[processCapture] ", &outcomes.processCapture);
    pushLabelled(&mut lines, "[udpRecording] ", &outcomes.udpRecording);
    pushLabelled(&mut lines, "[socks5] ", &outcomes.socks5);
    pushLabelled(&mut lines, "[auxiliary] ", &outcomes.auxiliary);
    let ghost before = views(lines@);
    if outcomes.mirrorFailed {
        lines.push(copyText("[mirror] mirrorFlushFailed"));
        assert(views(lines@) == before + seq!["[mirror] mirrorFlushFailed"@]);
    } else {
        assert(before + Seq::<Seq<char>>::empty() == before);
    }
    assert(views(lines@) == stopDiagnostics(*outcomes));
    lines
}

impl ManagedService {
    /// Begins a stop. A stopped service stays as it is, a faulted one that holds nothing is simply
    /// cleared, a starting or stopping one is refused.
    pub fn beginStop(&mut self) -> (result: Result<StopPlan, ApiError>)
        ensures
            match result {
                Ok(StopPlan::Nothing) => {
                    ||| old(self).state == ServiceState::Stopped && *final(self) == *old(self)
                    ||| old(self).state == ServiceState::Faulted && old(self).boundEndpoint is None
                        && !old(self).hasAuxiliary && !old(self).hasUdpRecording && final(self)@
                        == stopped(old(self)@)
                },
                Ok(StopPlan::TakeDown { listener, auxiliary, udpRecording }) => {
                    &&& old(self).state == ServiceState::Running || (old(self).state
                        == ServiceState::Faulted && (listener || auxiliary || udpRecording))
                    &&& listener == (old(self).boundEndpoint is Some)
                    &&& auxiliary == old(self).hasAuxiliary
                    &&& udpRecording == old(self).hasUdpRecording
                    &&& final(self)@ == stopping(old(self)@)
                },
                Err(error) => {
                    &&& old(self).state == ServiceState::Starting || old(self).state
                        == ServiceState::Stopping
                    &&& *final(self) == *old(self)
                    &&& error@ == plainError(409, ErrorCode::ServiceNotStoppable)
                },
            },
    {
        if self.state == ServiceState::Stopped {
            return Ok(StopPlan::Nothing);
        }
        if self.state == ServiceState::Faulted && self.boundEndpoint.is_none() && !self.hasAuxiliary
            && !self.hasUdpRecording {
            self.state = ServiceState::Stopped;
            self.socksError = None;
            self.errorMessage = None;
            return Ok(StopPlan::Nothing);
        }
        if !serviceStateCanEnterStop(self.state) {
            return Err(ApiError::conflict(ErrorCode::ServiceNotStoppable));
        }
        let plan = StopPlan::TakeDown {
            listener: self.boundEndpoint.is_some(),
            auxiliary: self.hasAuxiliary,
            udpRecording: self.hasUdpRecording,
        };
        self.state = ServiceState::Stopping;
        self.boundEndpoint = None;
        self.hasAuxiliary = false;
        self.hasUdpRecording = false;
        Ok(plan)
    }

    /// Ends a stop. Without a diagnostic the service is stopped and its failure forgotten; with one
    /// it is faulted, and the answer carries all diagnostics while the public state carries only
    /// the listener's failure.
    pub fn finishStop(&mut self, outcomes: StopOutcomes, catalogs: &Vec<LocaleCatalog>) -> (result:
        Result<(), ApiError>)
        requires
            old(self).state == ServiceState::Stopping,
            catalogComplete(catalogs@),
        ensures
            final(self)@ == takenDown(catalogs@, old(self)@, outcomes),
            result is Ok <==> stopDiagnostics(outcomes).len() == 0,
            result matches Err(error) ==> error@ == detailedError(
                500,
                ErrorCode::ServiceStopFailed,
                joined(stopDiagnostics(outcomes), "; "@),
            ),
    {
        let diagnostics = collectStopDiagnostics(&outcomes);
        assert(diagnostics@.len() == stopDiagnostics(outcomes).len());
        if outcomes.socks5.is_some() {
            self.socksError = Some(listenerError("socks5StopFailed", "error.serviceStopFailed"));
        }
        self.hasCaptureGeneration = false;
        if diagnostics.len() == 0 {
            self.state = ServiceState::Stopped;
            self.socksError = None;
            self.errorMessage = None;
            return Ok(());
        }
        self.state = ServiceState::Faulted;
        self.errorMessage = aggregateListenerErrors(&self.socksError, catalogs);
        Err(
            ApiError::internal(ErrorCode::ServiceStopFailed).withDetail(
                joinTexts(&diagnostics, "; "),
            ),
        )
    }
}

// ---------------------------------------------------------------------------
// Unexpected exit
// ---------------------------------------------------------------------------

/// The service after its data plane exited on its own.
pub open spec fn exited(catalogs: Seq<LocaleCatalog>, service: ServiceView) -> ServiceView {
    let error = Some(plainListenerError("socks5RuntimeFailed"@, "error.serviceStartFailed"@));
    ServiceView {
        state: ServiceState::Faulted,
        endpoint: None,
        hasAuxiliary: false,
        hasUdpRecording: false,
        socksError: error,
        errorMessage: aggregatedErrors(catalogs, error),
        ..service
    }
}

impl ManagedService {
    /// Takes note of a data plane that exited on its own. Only a running service can be lost; for
    /// any other state the notice came too late and nothing changes.
    pub fn noticeUnexpectedExit(&mut self, catalogs: &Vec<LocaleCatalog>) -> (result: bool)
        requires
            catalogComplete(catalogs@),
        ensures
            result == (old(self).state == ServiceState::Running),
            final(self)@ == if result { exited(catalogs@, old(self)@) } else { old(self)@ },
    {
        if self.state != ServiceState::Running {
            return false;
        }
        self.socksError = Some(listenerError("socks5RuntimeFailed", "error.serviceStartFailed"));
        self.boundEndpoint = None;
        self.hasAuxiliary = false;
        self.hasUdpRecording = false;
        self.state = ServiceState::Faulted;
        self.errorMessage = aggregateListenerErrors(&self.socksError, catalogs);
        true
    }

    /// Lets the capture generation of an exited data plane go, unless a newer one took its place.
    pub fn releaseExitedCaptureGeneration(&mut self, sameGeneration: bool)
        ensures
            final(self)@ == (ServiceView {
                hasCaptureGeneration: old(self).hasCaptureGeneration && !sameGeneration,
                ..old(self)@
            }),
    {
        if sameGeneration {
            self.hasCaptureGeneration = false;
        }
    }
}

// ---------------------------------------------------------------------------
// Announcing
// ---------------------------------------------------------------------------

/// Where a start or a stop stands when something could be announced.
#[derive(Clone, Copy, Debug, PartialEq, Eq, Structural)]
pub enum LifecycleMoment {
    /// Nothing changed: the operation was refused, or there was nothing to stop.
    Unchanged,
    /// A start or a stop began.
    Begun,
    /// A start ended before its data plane was tried, or a stop with nothing to take down.
    Settled,
    /// A start or a stop ended with whatever the data plane came to.
    Ended,
}

/// What is announced to clients.
#[derive(Clone, Copy, Debug, PartialEq, Eq, Structural)]
pub struct Announcements {
    pub serviceState: bool,
    pub runtimeViews: bool,
}

/// What is announced at a moment: nothing unless it is asked for.
pub open spec fn announcedAt(moment: LifecycleMoment, publishLifecycleEvents: bool) -> Announcements {
    Announcements {
        serviceState: publishLifecycleEvents && moment != LifecycleMoment::Unchanged,
        runtimeViews: publishLifecycleEvents && moment == LifecycleMoment::Ended,
    }
}

impl LifecycleMoment {
    /// Where a stop stands once it was begun on a service in a state.
    pub fn ofStop(before: ServiceState, plan: &Result<StopPlan, ApiError>) -> (result:
        LifecycleMoment)
        ensures
            result == match plan {
                Err(_) => LifecycleMoment::Unchanged,
                Ok(StopPlan::Nothing) => if before == ServiceState::Stopped {
                    LifecycleMoment::Unchanged
                } else {
                    LifecycleMoment::Settled
                },
                Ok(StopPlan::TakeDown { .. }) => LifecycleMoment::Begun,
            },
    {
        match plan {
            Err(_) => LifecycleMoment::Unchanged,
            Ok(StopPlan::Nothing) => if before == ServiceState::Stopped {
                LifecycleMoment::Unchanged
            } else {
                LifecycleMoment::Settled
            },
            Ok(StopPlan::TakeDown { .. }) => LifecycleMoment::Begun,
        }
    }

    /// What is announced. A change that is still to be accepted as a whole announces nothing of its
    /// single steps.
    pub fn announcements(self, publishLifecycleEvents: bool) -> (result: Announcements)
        ensures
            result == announcedAt(self, publishLifecycleEvents),
    {
        Announcements {
            serviceState: publishLifecycleEvents && self != LifecycleMoment::Unchanged,
            runtimeViews: publishLifecycleEvents && self == LifecycleMoment::Ended,
        }
    }
}

// ---------------------------------------------------------------------------
// Laws
// ---------------------------------------------------------------------------

/// Every lifecycle operation keeps the service valid: whatever happens, resources are held only
/// while the service runs.
pub proof fn lawLifecycleKeepsServiceValid(
    catalogs: Seq<LocaleCatalog>,
    service: ServiceView,
    primary: PrimaryOutcome,
    auxiliary: AuxiliaryOutcome,
    outcomes: StopOutcomes,
)
    requires
        serviceValid(service),
    ensures
        isStartable(service.state) ==> serviceValid(starting(service)) && serviceValid(
            accountStartFailed(starting(service)),
        ) && serviceValid(started(catalogs, starting(service), primary, auxiliary)),
        serviceValid(stopping(service)),
        serviceValid(takenDown(catalogs, stopping(service), outcomes)),
        service.state == ServiceState::Faulted ==> serviceValid(stopped(service)),
        serviceValid(exited(catalogs, service)),
{
}

/// Lifecycle events go out only when they are asked for, and then every change of the service is
/// announced; counters and sessions follow only where a data plane came or went.
pub proof fn lawEventsGoOutOnlyWhenAsked(moment: LifecycleMoment)
    ensures
        !announcedAt(moment, false).serviceState && !announcedAt(moment, false).runtimeViews,
        announcedAt(moment, true).serviceState <==> moment != LifecycleMoment::Unchanged,
        announcedAt(moment, true).runtimeViews ==> announcedAt(moment, true).serviceState,
{
}

/// A start ends in `Running` exactly where the primary listener came up; auxiliary listeners have
/// no say in it.
pub proof fn lawOnlyThePrimaryListenerDecides(
    catalogs: Seq<LocaleCatalog>,
    service: ServiceView,
    primary: PrimaryOutcome,
    auxiliary: AuxiliaryOutcome,
)
    requires
        serviceValid(service),
        isStartable(service.state),
    ensures
        started(catalogs, starting(service), primary, auxiliary).state == if primary is Running {
            ServiceState::Running
        } else {
            ServiceState::Faulted
        },
{
}

/// A service that was taken down, with or without diagnostics, can be started again, and a lost
/// one can be both started and stopped.
pub proof fn lawStoppedServiceCanStartAgain(
    catalogs: Seq<LocaleCatalog>,
    service: ServiceView,
    outcomes: StopOutcomes,
)
    ensures
        isStartable(takenDown(catalogs, stopping(service), outcomes).state),
        isStartable(exited(catalogs, service).state),
        takenDown(catalogs, stopping(service), outcomes).endpoint is None,
{
}

/// A service that comes up runs at the address that it was bound to, and one that does not says which part failed;
/// rules of the auxiliary listeners that fail leave it running and say so.
pub proof fn lawStartTellsWhatCameUp(
    catalogs: Seq<LocaleCatalog>,
    service: ServiceView,
    primary: PrimaryOutcome,
    auxiliary: AuxiliaryOutcome,
)
    requires
        serviceValid(service),
        isStartable(service.state),
    ensures
        ({
            let after = started(catalogs, starting(service), primary, auxiliary);
            &&& primary matches PrimaryOutcome::Running { boundEndpoint, hasUdpRecording } ==> {
                &&& after.endpoint == Some(boundEndpoint@)
                &&& after.hasUdpRecording == hasUdpRecording
                &&& after.hasCaptureGeneration
                &&& after.hasAuxiliary <==> auxiliary is Started
                &&& after.socksError is None
                &&& auxiliary matches AuxiliaryOutcome::Failed(code) ==> after.errorMessage == Some(
                    "[auxiliary] "@ + code@,
                )
                &&& !(auxiliary is Failed) ==> after.errorMessage is None
            }
            &&& !(primary is Running) ==> after.endpoint is None && !after.hasAuxiliary
                && after.socksError is Some && after.errorMessage is Some
            &&& primary matches PrimaryOutcome::CaptureFailed(detail) ==> after.errorMessage == Some(
                "[processCapture] "@ + detail@,
            ) && after.socksError->0.code == "processCaptureStartFailed"@
            &&& primary is ListenFailed ==> after.socksError->0.code == "socks5StartFailed"@
            &&& primary is HandlersFailed ==> after.socksError->0.code
                == "proxyListenerStartFailed"@
        }),
        accountStartFailed(starting(service)).state == ServiceState::Faulted,
        accountStartFailed(starting(service)).socksError->0.code == "accountServiceStartFailed"@,
{
}

/// A start is open to a service that is stopped or failed, and forgets what failed before.
pub proof fn lawStartBeginsClean(service: ServiceView)
    ensures
        isStartable(service.state) <==> service.state == ServiceState::Stopped || service.state
            == ServiceState::Faulted,
        starting(service).state == ServiceState::Starting,
        starting(service).socksError is None && starting(service).errorMessage is None,
        startError(None) == plainError(500, ErrorCode::ServiceStartFailed),
        stopping(service).state == ServiceState::Stopping && stopping(service).endpoint is None,
        stopped(service).state == ServiceState::Stopped && stopped(service).socksError is None
            && stopped(service).errorMessage is None,
{
}

/// A stop that meets no failure leaves the service stopped; one that does leaves it failed and tells every part
/// that did, each under its name and in the order in which they are taken down.
pub proof fn lawStopTellsWhatFailed(
    catalogs: Seq<LocaleCatalog>,
    service: ServiceView,
    outcomes: StopOutcomes,
)
    ensures
        ({
            let after = takenDown(catalogs, service, outcomes);
            let clean = outcomes.processCapture is None && outcomes.udpRecording is None
                && outcomes.socks5 is None && outcomes.auxiliary is None && !outcomes.mirrorFailed;
            &&& clean ==> after.state == ServiceState::Stopped && after.errorMessage is None
            &&& !clean ==> after.state == ServiceState::Faulted
            &&& !after.hasCaptureGeneration
            &&& outcomes.socks5 is Some ==> (after.socksError matches Some(error) && error.code
                == "socks5StopFailed"@)
            &&& stopDiagnostics(outcomes).len() == (if outcomes.processCapture is Some {
                1int
            } else {
                0
            }) + (if outcomes.udpRecording is Some {
                1int
            } else {
                0
            }) + (if outcomes.socks5 is Some {
                1int
            } else {
                0
            }) + (if outcomes.auxiliary is Some {
                1int
            } else {
                0
            }) + (if outcomes.mirrorFailed {
                1int
            } else {
                0
            })
            &&& outcomes.processCapture matches Some(detail) ==> stopDiagnostics(outcomes)[0]
                == "[processCapture] "@ + detail@
            &&& outcomes.mirrorFailed ==> stopDiagnostics(outcomes).last()
                == "[mirror] mirrorFlushFailed"@
            &&& outcomes.processCapture is None && outcomes.udpRecording is None ==> (
            outcomes.socks5 matches Some(detail) ==> stopDiagnostics(outcomes)[0] == "[socks5] "@
                + detail@)
            &&& outcomes.processCapture is None ==> (outcomes.udpRecording matches Some(detail)
                ==> stopDiagnostics(outcomes)[0] == "[udpRecording] "@ + detail@)
            &&& outcomes.processCapture is None && outcomes.udpRecording is None && outcomes.socks5
                is None ==> (outcomes.auxiliary matches Some(detail) ==> stopDiagnostics(
                outcomes,
            )[0] == "[auxiliary] "@ + detail@)
        }),
{
}

/// A service that was lost has failed, holds nothing any more and says so.
pub proof fn lawLostServiceHasFailed(catalogs: Seq<LocaleCatalog>, service: ServiceView)
    ensures
        ({
            let after = exited(catalogs, service);
            &&& after.state == ServiceState::Faulted && after.endpoint is None
            &&& !after.hasAuxiliary && !after.hasUdpRecording
            &&& after.socksError matches Some(error) && error.code == "socks5RuntimeFailed"@
            &&& after.errorMessage is Some
            &&& after.hasCaptureGeneration == service.hasCaptureGeneration
        }),
{
}

/// Sessions and counters are announced where a data plane came or went.
pub proof fn lawRuntimeViewsFollowTheEnd(moment: LifecycleMoment)
    ensures
        announcedAt(moment, true).runtimeViews <==> moment == LifecycleMoment::Ended,
{
}

/// A service that could not start for want of its account service has failed, and says so; everything else that it
/// held stays.
pub proof fn lawMissingAccountServiceIsTold(catalogs: Seq<LocaleCatalog>, service: ServiceView)
    ensures
        accountStartFailed(service).state == ServiceState::Faulted,
        accountStartFailed(service).errorMessage == Some("[accountService] startFailed"@),
        accountStartFailed(service).socksError is Some,
        accountStartFailed(service).socksError->0.code == "accountServiceStartFailed"@,
        accountStartFailed(service).socksError->0.messageKey == "error.serviceStartFailed"@,
        accountStartFailed(service).socksError->0.params.len() == 0,
        accountStartFailed(service).endpoint == service.endpoint,
        accountStartFailed(service).hasAuxiliary == service.hasAuxiliary,
        exited(catalogs, service).socksError is Some,
        exited(catalogs, service).socksError->0.messageKey == "error.serviceStartFailed"@,
        exited(catalogs, service).socksError->0.params.len() == 0,
{
}

/// A start that failed is answered as a failure of the service, with what is known of it.
pub proof fn lawFailedStartIsAnswered(detail: Seq<char>)
    ensures
        startError(None).status == 500 && startError(Some(detail)).status == 500,
        startError(None).code == ErrorCode::ServiceStartFailed,
        startError(Some(detail)).code == ErrorCode::ServiceStartFailed,
        startError(None).params.len() == 0,
        startError(Some(detail)).params == seq![("detail"@, detail)],
{
    crate::controlApi::httpControl::lawErrorCarriesItsDetail(500, ErrorCode::ServiceStartFailed, detail);
}

/// A service has an address exactly while it runs, and nothing of a data plane otherwise; a stopped one has no
/// failure to tell.
pub proof fn lawOnlyRunningServiceHasAnAddress(service: ServiceView)
    requires
        serviceValid(service),
    ensures
        service.endpoint is Some <==> service.state == ServiceState::Running,
        service.hasAuxiliary || service.hasUdpRecording ==> service.state == ServiceState::Running,
        service.state == ServiceState::Stopped ==> service.socksError is None && service.errorMessage
            is None,
{
}

} // verus!
