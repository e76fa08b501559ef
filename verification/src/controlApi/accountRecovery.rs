//! Keeping the account service and the proxy data plane alive together, and replacing the whole
//! configuration as one transaction.

pub mod configurationTransaction;
pub mod dataPlaneSteps;
pub mod serviceLifecycle;

use crate::controlApi::accountRecovery::dataPlaneSteps::nextGeneration;
use crate::controlApi::configuration::{AccountView, MultiAccountConfiguration};
use crate::network::{reachableLocally, IpAddress};
use vstd::prelude::*;

verus! {

/// The shortest pause between two looks at the account service.
pub const initialRecoveryDelaySeconds: u64 = 1;

/// The longest pause between two looks at the account service.
pub const maximumRecoveryDelaySeconds: u64 = 30;

/// Where the rules of an enabled account service are reached from the machine itself; never
/// through a public entry. `parsedHost` is the configured host, where it is an address.
pub fn localRuleServiceIp(enabled: bool, parsedHost: Option<IpAddress>) -> (result: Option<
    IpAddress,
>)
    ensures
        result == if enabled && parsedHost is Some {
            Some(reachableLocally(parsedHost->0))
        } else {
            None
        },
{
    if !enabled {
        return None;
    }
    match parsedHost {
        Some(address) => Some(address.local()),
        None => None,
    }
}

/// The next pause after a failure: twice the last one, thirty seconds at most.
pub open spec fn nextDelay(current: u64) -> u64 {
    if current >= 15 {
        maximumRecoveryDelaySeconds
    } else {
        (current * 2) as u64
    }
}

/// The next pause after a failure.
pub fn nextAccountRecoveryDelay(currentSeconds: u64) -> (result: u64)
    ensures
        result == nextDelay(currentSeconds),
{
    if currentSeconds >= 15 {
        maximumRecoveryDelaySeconds
    } else {
        currentSeconds * 2
    }
}

/// Whether what was observed still holds: same generation and same configuration.
pub open spec fn stillHolds(
    observedGeneration: u64,
    currentGeneration: u64,
    observed: AccountView,
    current: AccountView,
) -> bool {
    observedGeneration == currentGeneration && observed == current
}

/// Whether what was observed still holds.
pub fn accountRecoveryMatchesCurrentConfiguration(
    observedGeneration: u64,
    currentGeneration: u64,
    observed: &MultiAccountConfiguration,
    current: &MultiAccountConfiguration,
) -> (result: bool)
    ensures
        result == stillHolds(observedGeneration, currentGeneration, observed@, current@),
{
    observedGeneration == currentGeneration && observed.sameAs(current)
}

/// Whether the proxy may be restarted: someone wants it to run, and the configuration is still the
/// observed one.
pub open spec fn mayRestart(
    serviceRunIntent: bool,
    observedGeneration: u64,
    currentGeneration: u64,
) -> bool {
    serviceRunIntent && observedGeneration == currentGeneration
}

/// Whether the proxy may be restarted.
pub fn accountRecoveryMayRestartProxy(
    serviceRunIntent: bool,
    observedGeneration: u64,
    currentGeneration: u64,
) -> (result: bool)
    ensures
        result == mayRestart(serviceRunIntent, observedGeneration, currentGeneration),
{
    serviceRunIntent && observedGeneration == currentGeneration
}

/// What the monitor does next.
#[derive(Clone, Copy, Debug, PartialEq, Eq, Structural)]
pub enum RecoveryAction {
    /// Sleep for the pause, then look at the account service again.
    Wait,
    /// Take the lifecycle lock and look at the current configuration.
    Recheck,
    /// Take the proxy down, since its accounts are gone.
    StopProxy,
    /// Stop what is left of the account service and start it again.
    RestartAccountService,
    /// Start the proxy.
    StartProxy,
}

/// What holds once the lifecycle lock is taken.
#[derive(Clone, Copy, Debug, PartialEq, Eq, Structural)]
pub struct RecoveryObservation {
    pub healthy: bool,
    pub matchesCurrent: bool,
    pub generation: u64,
    pub enabled: bool,
    pub serviceRunIntent: bool,
    pub proxyRunning: bool,
}

/// The monitor of the account service. `pending` is the configuration generation under which the
/// proxy is still to be brought back.
#[derive(Clone, Copy, Debug, PartialEq, Eq, Structural)]
pub struct AccountRecoveryMonitor {
    pub pending: Option<u64>,
    pub delaySeconds: u64,
}

/// A monitor with nothing to bring back and the shortest pause.
pub open spec fn settled() -> AccountRecoveryMonitor {
    AccountRecoveryMonitor { pending: None, delaySeconds: initialRecoveryDelaySeconds }
}

/// A monitor that waits longer after a failure.
pub open spec fn delayed(monitor: AccountRecoveryMonitor) -> AccountRecoveryMonitor {
    AccountRecoveryMonitor { delaySeconds: nextDelay(monitor.delaySeconds), ..monitor }
}

/// The generation under which a lost proxy is to be brought back.
pub open spec fn pendingFor(observation: RecoveryObservation) -> Option<u64> {
    if observation.enabled && observation.serviceRunIntent {
        Some(observation.generation)
    } else {
        None
    }
}

/// What the monitor does under the lifecycle lock.
pub open spec fn decided(monitor: AccountRecoveryMonitor, o: RecoveryObservation) -> (
    AccountRecoveryMonitor,
    RecoveryAction,
) {
    if !o.matchesCurrent {
        (settled(), RecoveryAction::Wait)
    } else if o.healthy {
        if monitor.pending == Some(o.generation) && o.serviceRunIntent {
            (monitor, RecoveryAction::StartProxy)
        } else {
            (settled(), RecoveryAction::Wait)
        }
    } else if o.enabled && o.proxyRunning {
        (monitor, RecoveryAction::StopProxy)
    } else {
        (
            AccountRecoveryMonitor { pending: pendingFor(o), ..monitor },
            RecoveryAction::RestartAccountService,
        )
    }
}

impl AccountRecoveryMonitor {
    /// Whether the pause is between one and thirty seconds.
    pub open spec fn wf(&self) -> bool {
        initialRecoveryDelaySeconds <= self.delaySeconds <= maximumRecoveryDelaySeconds
    }

    /// A monitor that has seen nothing yet.
    pub fn new() -> (result: AccountRecoveryMonitor)
        ensures
            result == settled(),
            result.wf(),
    {
        AccountRecoveryMonitor { pending: None, delaySeconds: initialRecoveryDelaySeconds }
    }

    /// A healthy account service with nothing pending needs no lock.
    pub fn afterHealthCheck(&mut self, healthy: bool) -> (result: RecoveryAction)
        requires
            old(self).wf(),
        ensures
            final(self).wf(),
            if healthy && old(self).pending is None {
                result == RecoveryAction::Wait && *final(self) == settled()
            } else {
                result == RecoveryAction::Recheck && *final(self) == *old(self)
            },
    {
        if healthy && self.pending.is_none() {
            self.delaySeconds = initialRecoveryDelaySeconds;
            RecoveryAction::Wait
        } else {
            RecoveryAction::Recheck
        }
    }

    /// Decides under the lifecycle lock. A changed configuration or a withdrawn wish to run cancels
    /// what was pending.
    pub fn decide(&mut self, observation: RecoveryObservation) -> (result: RecoveryAction)
        requires
            old(self).wf(),
        ensures
            final(self).wf(),
            (*final(self), result) == decided(*old(self), observation),
    {
        if !observation.matchesCurrent {
            *self = AccountRecoveryMonitor::new();
            return RecoveryAction::Wait;
        }
        if observation.healthy {
            let isPending = match self.pending {
                Some(generation) => generation == observation.generation,
                None => false,
            };
            if !isPending || !accountRecoveryMayRestartProxy(
                observation.serviceRunIntent,
                observation.generation,
                observation.generation,
            ) {
                *self = AccountRecoveryMonitor::new();
                return RecoveryAction::Wait;
            }
            return RecoveryAction::StartProxy;
        }
        if observation.enabled && observation.proxyRunning {
            return RecoveryAction::StopProxy;
        }
        self.pending = if observation.enabled && observation.serviceRunIntent {
            Some(observation.generation)
        } else {
            None
        };
        RecoveryAction::RestartAccountService
    }

    /// A proxy that could not be taken down is tried again later; otherwise the account service is
    /// restarted.
    pub fn afterStopProxy(&mut self, succeeded: bool, observation: RecoveryObservation) -> (result:
        RecoveryAction)
        requires
            old(self).wf(),
        ensures
            final(self).wf(),
            if succeeded {
                result == RecoveryAction::RestartAccountService && *final(self) == (
                AccountRecoveryMonitor { pending: pendingFor(observation), ..*old(self) })
            } else {
                result == RecoveryAction::Wait && *final(self) == delayed(*old(self))
            },
    {
        if !succeeded {
            self.delaySeconds = nextAccountRecoveryDelay(self.delaySeconds);
            return RecoveryAction::Wait;
        }
        self.pending = if observation.enabled && observation.serviceRunIntent {
            Some(observation.generation)
        } else {
            None
        };
        RecoveryAction::RestartAccountService
    }

    /// After a successful restart the proxy follows, where it is still wanted.
    pub fn afterAccountServiceRestart(
        &mut self,
        succeeded: bool,
        enabled: bool,
        mayRestartProxy: bool,
    ) -> (result: RecoveryAction)
        requires
            old(self).wf(),
        ensures
            final(self).wf(),
            if !succeeded {
                result == RecoveryAction::Wait && *final(self) == delayed(*old(self))
            } else if enabled && mayRestartProxy {
                result == RecoveryAction::StartProxy && *final(self) == *old(self)
            } else {
                result == RecoveryAction::Wait && *final(self) == settled()
            },
    {
        if !succeeded {
            self.delaySeconds = nextAccountRecoveryDelay(self.delaySeconds);
            return RecoveryAction::Wait;
        }
        if enabled && mayRestartProxy {
            return RecoveryAction::StartProxy;
        }
        *self = AccountRecoveryMonitor::new();
        RecoveryAction::Wait
    }

    /// A started proxy settles the monitor; a failed start keeps it pending and waits longer.
    pub fn afterStartProxy(&mut self, succeeded: bool) -> (result: RecoveryAction)
        requires
            old(self).wf(),
        ensures
            final(self).wf(),
            result == RecoveryAction::Wait,
            *final(self) == if succeeded { settled() } else { delayed(*old(self)) },
    {
        if succeeded {
            *self = AccountRecoveryMonitor::new();
        } else {
            self.delaySeconds = nextAccountRecoveryDelay(self.delaySeconds);
        }
        RecoveryAction::Wait
    }
}

/// The pause after any number of failures stays between one and thirty seconds and never shrinks.
pub proof fn lawRecoveryDelayIsBounded(current: u64)
    requires
        initialRecoveryDelaySeconds <= current <= maximumRecoveryDelaySeconds,
    ensures
        current <= nextDelay(current) <= maximumRecoveryDelaySeconds,
{
}

/// The proxy is only ever started where someone wants it to run under the current configuration.
pub proof fn lawProxyStartsOnlyOnIntent(
    monitor: AccountRecoveryMonitor,
    observation: RecoveryObservation,
)
    ensures
        decided(monitor, observation).1 == RecoveryAction::StartProxy
            ==> observation.serviceRunIntent && observation.matchesCurrent && observation.healthy
            && monitor.pending == Some(observation.generation),
        !observation.serviceRunIntent && decided(monitor, observation).1
            == RecoveryAction::RestartAccountService ==> decided(monitor, observation).0.pending
            is None,
{
}

/// A new generation of the account service's configuration cancels every recovery that was begun
/// under the last one, even where the configuration reads the same.
pub proof fn lawNewGenerationCancelsRecovery(
    generation: u64,
    observed: AccountView,
    current: AccountView,
    serviceRunIntent: bool,
)
    ensures
        !stillHolds(generation, nextGeneration(generation), observed, current),
        !mayRestart(serviceRunIntent, generation, nextGeneration(generation)),
{
}

/// An account service that fails is tried again at growing distances: after one second, then twice as long each
/// time, up to half a minute; a recovery that is over begins anew.
pub proof fn lawDelayDoubles(monitor: AccountRecoveryMonitor)
    ensures
        monitor.delaySeconds < 15 ==> nextDelay(monitor.delaySeconds) == 2 * monitor.delaySeconds,
        monitor.delaySeconds >= 15 ==> nextDelay(monitor.delaySeconds) == 30,
        delayed(monitor).delaySeconds == nextDelay(monitor.delaySeconds),
        delayed(monitor).pending == monitor.pending,
        settled().delaySeconds == 1 && settled().pending is None,
{
}

/// What is seen decides: a configuration that changed ends the recovery, a proxy that runs without its account
/// service is stopped, a service that fails is restarted, and once it is well the proxy that waited for it is
/// started where someone still wants it.
pub proof fn lawObservationDecides(monitor: AccountRecoveryMonitor, seen: RecoveryObservation)
    ensures
        ({
            let (next, action) = decided(monitor, seen);
            &&& !seen.matchesCurrent ==> action == RecoveryAction::Wait && next == settled()
            &&& seen.matchesCurrent && !seen.healthy && seen.enabled && seen.proxyRunning ==> action
                == RecoveryAction::StopProxy && next == monitor
            &&& seen.matchesCurrent && !seen.healthy && !(seen.enabled && seen.proxyRunning)
                ==> action == RecoveryAction::RestartAccountService && next.delaySeconds
                == monitor.delaySeconds && (next.pending == Some(seen.generation) <==> seen.enabled
                && seen.serviceRunIntent) && (next.pending is None <==> !(seen.enabled
                && seen.serviceRunIntent))
            &&& seen.matchesCurrent && seen.healthy && monitor.pending == Some(seen.generation)
                && seen.serviceRunIntent ==> action == RecoveryAction::StartProxy && next == monitor
            &&& seen.matchesCurrent && seen.healthy && !(monitor.pending == Some(seen.generation)
                && seen.serviceRunIntent) ==> action == RecoveryAction::Wait && next == settled()
        }),
{
}

/// What was observed still counts while nothing changed, and a proxy is restarted only where someone wants it to
/// run and nothing changed.
pub proof fn lawUnchangedConfigurationCounts(
    generation: u64,
    other: u64,
    observed: AccountView,
    current: AccountView,
    intent: bool,
)
    ensures
        stillHolds(generation, generation, observed, observed),
        stillHolds(generation, other, observed, current) <==> generation == other && observed
            == current,
        mayRestart(intent, generation, other) <==> intent && generation == other,
{
}

/// The pause between two attempts is never shorter than a second nor longer than half a minute.
pub proof fn lawPauseIsBounded(monitor: AccountRecoveryMonitor)
    ensures
        monitor.wf() <==> 1 <= monitor.delaySeconds <= 30,
        monitor.wf() ==> 1 <= nextDelay(monitor.delaySeconds) <= 30,
{
}

} // verus!
