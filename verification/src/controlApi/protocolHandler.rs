//! One port for every protocol: connections of captured processes go to where they were headed, all
//! others to the HTTP proxy.

use crate::text::{copyOptional, copyText, optionalView};
use vstd::prelude::*;

verus! {

/// Where a captured connection was headed, and the process that it belongs to.
#[derive(Debug)]
pub struct OriginalTarget {
    /// The address without the port.
    pub address: String,
    pub port: u16,
    pub processId: u32,
    pub processName: Option<String>,
}

/// The mathematical value of a target.
pub struct TargetView {
    pub address: Seq<char>,
    pub port: u16,
    pub processId: u32,
    pub processName: Option<Seq<char>>,
}

impl View for OriginalTarget {
    type V = TargetView;

    open spec fn view(&self) -> TargetView {
        TargetView {
            address: self.address@,
            port: self.port,
            processId: self.processId,
            processName: optionalView(self.processName),
        }
    }
}

/// Whether a connection is claimed before its first byte is read: where the capture knows its target.
/// A captured connection whose first byte looks like a SOCKS greeting is none.
pub fn claimsConnection(originalTarget: &Option<OriginalTarget>) -> (result: bool)
    ensures
        result == originalTarget is Some,
{
    originalTarget.is_some()
}

/// How a captured connection is passed on. The name is shown; the connection always goes to the address
/// that the capture knows, and no account pays for it.
#[derive(Debug)]
pub struct TransparentTunnel {
    pub clientProcessName: Option<String>,
    pub clientProcessId: Option<u32>,
    pub targetHost: String,
    pub connectHost: String,
    pub targetPort: u16,
    pub routePinned: bool,
    pub accountLease: bool,
}

/// The mathematical value of a tunnel.
pub struct TunnelView {
    pub clientProcessName: Option<Seq<char>>,
    pub clientProcessId: Option<u32>,
    pub targetHost: Seq<char>,
    pub connectHost: Seq<char>,
    pub targetPort: u16,
    pub routePinned: bool,
    pub accountLease: bool,
}

impl View for TransparentTunnel {
    type V = TunnelView;

    open spec fn view(&self) -> TunnelView {
        TunnelView {
            clientProcessName: optionalView(self.clientProcessName),
            clientProcessId: self.clientProcessId,
            targetHost: self.targetHost@,
            connectHost: self.connectHost@,
            targetPort: self.targetPort,
            routePinned: self.routePinned,
            accountLease: self.accountLease,
        }
    }
}

/// The tunnel of a captured connection. `resolvedHost` is the name that the connection itself tells.
pub open spec fn tunnelTo(target: TargetView, resolvedHost: Option<Seq<char>>) -> TunnelView {
    TunnelView {
        clientProcessName: target.processName,
        clientProcessId: Some(target.processId),
        targetHost: match resolvedHost {
            Some(host) => host,
            None => target.address,
        },
        connectHost: target.address,
        targetPort: target.port,
        routePinned: true,
        accountLease: false,
    }
}

/// Plans the tunnel of a captured connection.
pub fn planTunnel(target: &OriginalTarget, resolvedHost: Option<String>) -> (result:
    TransparentTunnel)
    ensures
        result@ == tunnelTo(target@, optionalView(resolvedHost)),
{
    TransparentTunnel {
        clientProcessName: copyOptional(&target.processName),
        clientProcessId: Some(target.processId),
        targetHost: match resolvedHost {
            Some(host) => host,
            None => copyText(target.address.as_str()),
        },
        connectHost: copyText(target.address.as_str()),
        targetPort: target.port,
        routePinned: true,
        accountLease: false,
    }
}

/// What a connection tells of its host changes only what is shown, never where it goes.
pub proof fn lawRouteStaysPinned(
    target: TargetView,
    first: Option<Seq<char>>,
    second: Option<Seq<char>>,
)
    ensures
        tunnelTo(target, first).connectHost == tunnelTo(target, second).connectHost,
        tunnelTo(target, first).connectHost == target.address,
        tunnelTo(target, first).targetPort == target.port,
        tunnelTo(target, first).routePinned && !tunnelTo(target, first).accountLease,
{
}

/// What a connection does next.
#[derive(Clone, Copy, Debug, PartialEq, Eq, Structural)]
pub enum ConnectionStep {
    /// Hand the connection to the HTTP proxy.
    ServeHttp,
    /// Read the name of the target from the connection.
    ResolveHost,
    /// Connect to the target.
    Connect,
    /// Find out what the connection speaks.
    Intercept,
    /// Pass the bytes on and record them.
    Relay,
    /// Report that passing on failed.
    ReportRelay,
    /// Report that the connection could not be understood.
    ReportClassification,
    End,
}

/// How a step went.
#[derive(Clone, Copy, Debug, PartialEq, Eq, Structural)]
pub enum ConnectionOutcome {
    Succeeded,
    Failed,
    /// The connection speaks nothing that is handled by itself.
    Raw,
}

/// The first step of a connection.
pub open spec fn firstConnectionStep(captured: bool) -> ConnectionStep {
    if captured {
        ConnectionStep::ResolveHost
    } else {
        ConnectionStep::ServeHttp
    }
}

/// What a step leads to. A name that cannot be read stops nothing; a target that cannot be reached ends
/// the connection.
pub open spec fn nextConnectionStep(
    step: ConnectionStep,
    outcome: ConnectionOutcome,
) -> ConnectionStep {
    match step {
        ConnectionStep::ServeHttp => ConnectionStep::End,
        ConnectionStep::ResolveHost => ConnectionStep::Connect,
        ConnectionStep::Connect => if outcome == ConnectionOutcome::Failed {
            ConnectionStep::End
        } else {
            ConnectionStep::Intercept
        },
        ConnectionStep::Intercept => match outcome {
            ConnectionOutcome::Raw => ConnectionStep::Relay,
            ConnectionOutcome::Succeeded => ConnectionStep::End,
            ConnectionOutcome::Failed => ConnectionStep::ReportClassification,
        },
        ConnectionStep::Relay => if outcome == ConnectionOutcome::Failed {
            ConnectionStep::ReportRelay
        } else {
            ConnectionStep::End
        },
        ConnectionStep::ReportRelay => ConnectionStep::End,
        ConnectionStep::ReportClassification => ConnectionStep::End,
        ConnectionStep::End => ConnectionStep::End,
    }
}

impl ConnectionStep {
    /// The first step of a connection.
    pub fn first(captured: bool) -> (result: ConnectionStep)
        ensures
            result == firstConnectionStep(captured),
    {
        if captured {
            ConnectionStep::ResolveHost
        } else {
            ConnectionStep::ServeHttp
        }
    }

    /// What the step leads to.
    pub fn serve(self, outcome: ConnectionOutcome) -> (result: ConnectionStep)
        ensures
            result == nextConnectionStep(self, outcome),
    {
        match self {
            ConnectionStep::ServeHttp => ConnectionStep::End,
            ConnectionStep::ResolveHost => ConnectionStep::Connect,
            ConnectionStep::Connect => match outcome {
                ConnectionOutcome::Failed => ConnectionStep::End,
                _ => ConnectionStep::Intercept,
            },
            ConnectionStep::Intercept => match outcome {
                ConnectionOutcome::Raw => ConnectionStep::Relay,
                ConnectionOutcome::Succeeded => ConnectionStep::End,
                ConnectionOutcome::Failed => ConnectionStep::ReportClassification,
            },
            ConnectionStep::Relay => match outcome {
                ConnectionOutcome::Failed => ConnectionStep::ReportRelay,
                _ => ConnectionStep::End,
            },
            ConnectionStep::ReportRelay => ConnectionStep::End,
            ConnectionStep::ReportClassification => ConnectionStep::End,
            ConnectionStep::End => ConnectionStep::End,
        }
    }
}

/// Bytes are passed on unread only where the connection was captured, reached its target and speaks
/// nothing that is handled by itself; failures on the way are told.
pub proof fn lawConnectionKeepsItsCourse(step: ConnectionStep, outcome: ConnectionOutcome)
    ensures
        nextConnectionStep(step, outcome) is Relay ==> step is Intercept && outcome
            == ConnectionOutcome::Raw,
        nextConnectionStep(step, outcome) is Intercept ==> step is Connect && outcome
            != ConnectionOutcome::Failed,
        step is Relay && outcome == ConnectionOutcome::Failed ==> nextConnectionStep(step, outcome)
            is ReportRelay,
        !(nextConnectionStep(step, outcome) is ServeHttp),
{
}

/// A connection that was captured is resolved, connected and looked into; raw traffic is relayed, and a failure is
/// reported where it happened. One that was not captured is served.
pub proof fn lawConnectionTakesItsWay(captured: bool, outcome: ConnectionOutcome)
    ensures
        firstConnectionStep(captured) is ResolveHost <==> captured,
        firstConnectionStep(captured) is ServeHttp <==> !captured,
        nextConnectionStep(ConnectionStep::ServeHttp, outcome) is End,
        nextConnectionStep(ConnectionStep::ResolveHost, outcome) is Connect,
        nextConnectionStep(ConnectionStep::Connect, ConnectionOutcome::Succeeded) is Intercept,
        nextConnectionStep(ConnectionStep::Connect, ConnectionOutcome::Failed) is End,
        nextConnectionStep(ConnectionStep::Intercept, ConnectionOutcome::Raw) is Relay,
        nextConnectionStep(ConnectionStep::Intercept, ConnectionOutcome::Succeeded) is End,
        nextConnectionStep(ConnectionStep::Intercept, ConnectionOutcome::Failed)
            is ReportClassification,
        nextConnectionStep(ConnectionStep::Relay, ConnectionOutcome::Succeeded) is End,
        nextConnectionStep(ConnectionStep::ReportRelay, outcome) is End,
        nextConnectionStep(ConnectionStep::ReportClassification, outcome) is End,
{
}

/// A tunnel is shown under the name that its address was asked for, where that is known, with the process that
/// opened it.
pub proof fn lawTunnelIsShownByName(target: TargetView, host: Seq<char>)
    ensures
        tunnelTo(target, Some(host)).targetHost == host,
        tunnelTo(target, None).targetHost == target.address,
        tunnelTo(target, None).clientProcessId == Some(target.processId),
        tunnelTo(target, None).clientProcessName == target.processName,
{
}

} // verus!
