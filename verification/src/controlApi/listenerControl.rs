//! Replacing the auxiliary listeners: whether they clash with the main ones, and the steps of the
//! replacement.

use crate::controlApi::httpControl::{plainError, ApiError, ApiErrorView};
use crate::controlApi::serviceState::ServiceState;
use crate::localization::ErrorCode;
use crate::network::{isUnspecified, Endpoint, IpAddress};
use vstd::prelude::*;

verus! {

/// A listener of the service itself.
#[derive(Clone, Copy, Debug, PartialEq, Eq, Structural)]
pub struct ProtectedListener {
    pub address: IpAddress,
    pub port: u16,
    pub enabled: bool,
}

/// Whether an endpoint takes what a listener needs: the same port on the same address, or on every
/// address of the machine.
pub open spec fn clashesWith(listener: ProtectedListener, endpoint: Endpoint) -> bool {
    &&& listener.enabled
    &&& listener.port == endpoint.port
    &&& listener.address == endpoint.address || isUnspecified(listener.address) || isUnspecified(
        endpoint.address,
    )
}

fn clashes(listener: &ProtectedListener, endpoint: &Endpoint) -> (result: bool)
    ensures
        result == clashesWith(*listener, *endpoint),
{
    listener.enabled && listener.port == endpoint.port && (listener.address == endpoint.address
        || listener.address.unspecified() || endpoint.address.unspecified())
}

/// Why auxiliary listeners are refused, if so: rules that do not hold together, an address that is
/// none, or a clash with the main listeners. `endpoints` holds what the rules that are on listen on.
pub open spec fn auxiliaryProblem(
    rulesValid: bool,
    socks: Option<IpAddress>,
    socksPort: u16,
    http: Option<IpAddress>,
    httpPort: u16,
    httpEnabled: bool,
    endpoints: Seq<Option<Endpoint>>,
) -> Option<ApiErrorView> {
    if !rulesValid || socks is None || http is None || exists|i: int|
        0 <= i < endpoints.len() && (#[trigger] endpoints[i]) is None {
        Some(plainError(400, ErrorCode::InvalidConfiguration))
    } else if exists|i: int|
        0 <= i < endpoints.len() && (clashesWith(
            ProtectedListener { address: socks->0, port: socksPort, enabled: true },
            (#[trigger] endpoints[i])->0,
        ) || clashesWith(
            ProtectedListener { address: http->0, port: httpPort, enabled: httpEnabled },
            endpoints[i]->0,
        )) {
        Some(plainError(400, ErrorCode::ListenerConfigurationConflict))
    } else {
        None
    }
}

/// A rule of an auxiliary listener, as far as it listens. Its address may be none.
#[derive(Clone, Copy, Debug, PartialEq, Eq, Structural)]
pub struct ListenRule {
    pub enabled: bool,
    pub endpoint: Option<Endpoint>,
}

/// What the rules that are on listen on.
pub open spec fn onEndpoints(rules: Seq<ListenRule>) -> Seq<Option<Endpoint>>
    decreases rules.len(),
{
    if rules.len() == 0 {
        Seq::empty()
    } else {
        let before = onEndpoints(rules.drop_last());
        if rules.last().enabled {
            before.push(rules.last().endpoint)
        } else {
            before
        }
    }
}

fn appendEndpoints(endpoints: &mut Vec<Option<Endpoint>>, rules: &Vec<ListenRule>)
    ensures
        final(endpoints)@ == old(endpoints)@ + onEndpoints(rules@),
{
    let ghost before = endpoints@;
    let mut i: usize = 0;
    assert(onEndpoints(rules@.take(0)).len() == 0);
    while i < rules.len()
        invariant
            i <= rules.len(),
            endpoints@ == before + onEndpoints(rules@.take(i as int)),
        decreases rules.len() - i,
    {
        assert(rules@.take(i + 1).drop_last() == rules@.take(i as int));
        if rules[i].enabled {
            endpoints.push(rules[i].endpoint);
            assert(endpoints@ == before + onEndpoints(rules@.take(i + 1)));
        }
        i += 1;
    }
    assert(rules@.take(i as int) == rules@);
}

/// What the auxiliary listeners listen on: the rules that are on, reverse proxies first.
pub fn listenEndpoints(reverseProxies: &Vec<ListenRule>, portForwards: &Vec<ListenRule>) -> (result:
    Vec<Option<Endpoint>>)
    ensures
        result@ == onEndpoints(reverseProxies@) + onEndpoints(portForwards@),
{
    let mut endpoints: Vec<Option<Endpoint>> = Vec::new();
    appendEndpoints(&mut endpoints, reverseProxies);
    appendEndpoints(&mut endpoints, portForwards);
    endpoints
}

/// A rule that is off never clashes: without it the rules listen on the same.
pub proof fn lawRuleThatIsOffNeverClashes(rules: Seq<ListenRule>, i: int)
    requires
        0 <= i < rules.len(),
        !rules[i].enabled,
    ensures
        onEndpoints(rules.remove(i)) == onEndpoints(rules),
    decreases rules.len(),
{
    let last = rules.len() - 1;
    if i == last {
        assert(rules.remove(i) == rules.drop_last());
    } else {
        assert(rules.remove(i).drop_last() == rules.drop_last().remove(i));
        assert(rules.remove(i).last() == rules.last());
        lawRuleThatIsOffNeverClashes(rules.drop_last(), i);
    }
}

/// The rules of all auxiliary listeners, over entries that the data plane reads.
#[derive(Debug)]
pub struct AuxiliaryConfiguration<R, F> {
    pub reverseProxies: R,
    pub portForwards: F,
}

/// A new collection of one kind of rules.
#[derive(Debug)]
pub enum AuxiliaryChange<R, F> {
    ReverseProxies(R),
    PortForwards(F),
}

/// The rules with one collection replaced.
pub open spec fn withCollection<R, F>(
    configuration: AuxiliaryConfiguration<R, F>,
    change: AuxiliaryChange<R, F>,
) -> AuxiliaryConfiguration<R, F> {
    match change {
        AuxiliaryChange::ReverseProxies(reverseProxies) => AuxiliaryConfiguration {
            reverseProxies,
            ..configuration
        },
        AuxiliaryChange::PortForwards(portForwards) => AuxiliaryConfiguration {
            portForwards,
            ..configuration
        },
    }
}

impl<R, F> AuxiliaryConfiguration<R, F> {
    /// Replaces one collection; the other stays as it is.
    pub fn replaced(self, change: AuxiliaryChange<R, F>) -> (result: AuxiliaryConfiguration<R, F>)
        ensures
            result == withCollection(self, change),
            change is ReverseProxies ==> result.portForwards == self.portForwards,
            change is PortForwards ==> result.reverseProxies == self.reverseProxies,
    {
        match change {
            AuxiliaryChange::ReverseProxies(reverseProxies) => AuxiliaryConfiguration {
                reverseProxies,
                portForwards: self.portForwards,
            },
            AuxiliaryChange::PortForwards(portForwards) => AuxiliaryConfiguration {
                reverseProxies: self.reverseProxies,
                portForwards,
            },
        }
    }
}

/// Checks auxiliary listeners against the main ones. Rules that are off do not count.
pub fn validateAuxiliaryListenerConfiguration(
    rulesValid: bool,
    socks: Option<IpAddress>,
    socksPort: u16,
    http: Option<IpAddress>,
    httpPort: u16,
    httpEnabled: bool,
    reverseProxies: &Vec<ListenRule>,
    portForwards: &Vec<ListenRule>,
) -> (result: Result<(), ApiError>)
    ensures
        match result {
            Ok(_) => auxiliaryProblem(
                rulesValid,
                socks,
                socksPort,
                http,
                httpPort,
                httpEnabled,
                onEndpoints(reverseProxies@) + onEndpoints(portForwards@),
            ) is None,
            Err(error) => auxiliaryProblem(
                rulesValid,
                socks,
                socksPort,
                http,
                httpPort,
                httpEnabled,
                onEndpoints(reverseProxies@) + onEndpoints(portForwards@),
            ) == Some(error@),
        },
{
    checkEndpoints(
        rulesValid,
        socks,
        socksPort,
        http,
        httpPort,
        httpEnabled,
        &listenEndpoints(reverseProxies, portForwards),
    )
}

fn checkEndpoints(
    rulesValid: bool,
    socks: Option<IpAddress>,
    socksPort: u16,
    http: Option<IpAddress>,
    httpPort: u16,
    httpEnabled: bool,
    endpoints: &Vec<Option<Endpoint>>,
) -> (result: Result<(), ApiError>)
    ensures
        match result {
            Ok(_) => auxiliaryProblem(
                rulesValid,
                socks,
                socksPort,
                http,
                httpPort,
                httpEnabled,
                endpoints@,
            ) is None,
            Err(error) => auxiliaryProblem(
                rulesValid,
                socks,
                socksPort,
                http,
                httpPort,
                httpEnabled,
                endpoints@,
            ) == Some(error@),
        },
{
    if !rulesValid {
        return Err(ApiError::badRequest(ErrorCode::InvalidConfiguration));
    }
    let (socksAddress, httpAddress) = match (socks, http) {
        (Some(socks), Some(http)) => (socks, http),
        _ => return Err(ApiError::badRequest(ErrorCode::InvalidConfiguration)),
    };
    let mut i: usize = 0;
    while i < endpoints.len()
        invariant
            i <= endpoints.len(),
            rulesValid,
            forall|k: int| 0 <= k < i ==> (#[trigger] endpoints@[k]) is Some,
        decreases endpoints.len() - i,
    {
        if endpoints[i].is_none() {
            assert(endpoints@[i as int] is None);
            return Err(ApiError::badRequest(ErrorCode::InvalidConfiguration));
        }
        i += 1;
    }
    let first = ProtectedListener { address: socksAddress, port: socksPort, enabled: true };
    let second = ProtectedListener { address: httpAddress, port: httpPort, enabled: httpEnabled };
    let mut k: usize = 0;
    while k < endpoints.len()
        invariant
            k <= endpoints.len(),
            rulesValid,
            socks == Some(socksAddress),
            http == Some(httpAddress),
            first == (ProtectedListener { address: socksAddress, port: socksPort, enabled: true }),
            second == (ProtectedListener {
                address: httpAddress,
                port: httpPort,
                enabled: httpEnabled,
            }),
            forall|j: int| 0 <= j < endpoints@.len() ==> (#[trigger] endpoints@[j]) is Some,
            forall|j: int|
                0 <= j < k ==> !clashesWith(first, (#[trigger] endpoints@[j])->0) && !clashesWith(
                    second,
                    endpoints@[j]->0,
                ),
        decreases endpoints.len() - k,
    {
        match &endpoints[k] {
            Some(endpoint) => {
                if clashes(&first, endpoint) || clashes(&second, endpoint) {
                    assert(clashesWith(first, endpoints@[k as int]->0) || clashesWith(
                        second,
                        endpoints@[k as int]->0,
                    ));
                    return Err(ApiError::badRequest(ErrorCode::ListenerConfigurationConflict));
                }
            },
            None => {},
        }
        k += 1;
    }
    Ok(())
}

/// A wildcard address leaves no room: an auxiliary listener on the same port of every address always
/// clashes with a main listener that is on.
pub proof fn lawWildcardAlwaysClashes(listener: ProtectedListener, endpoint: Endpoint)
    requires
        listener.enabled,
        listener.port == endpoint.port,
        isUnspecified(endpoint.address) || isUnspecified(listener.address),
    ensures
        clashesWith(listener, endpoint),
{
}

/// The steps of a replacement.
#[derive(Clone, Copy, Debug, PartialEq, Eq, Structural)]
pub enum ReplacementStep {
    /// Stop the service.
    Stop,
    /// Store the new rules.
    Persist,
    /// Start the service with the old rules again, then report the failure.
    RestartOld,
    /// Put the new rules into effect.
    Publish,
    /// Start the service with the new rules.
    Start,
    /// The rules are in effect.
    Done,
    /// The rules could not be stored; the old ones stay in effect.
    Refused,
    /// The service could not be stopped; nothing has changed.
    StopFailed,
    /// The rules are in effect and the service could not be started with them.
    StartFailed,
}

/// A replacement under way.
#[derive(Clone, Copy, Debug, PartialEq, Eq, Structural)]
pub struct ListenerReplacement {
    /// Whether the service ran before.
    pub restartRequired: bool,
    pub step: ReplacementStep,
    /// Whether the new rules are in effect.
    pub published: bool,
}

/// A replacement at its start.
pub open spec fn startedReplacement(service: ServiceState) -> ListenerReplacement {
    ListenerReplacement {
        restartRequired: service != ServiceState::Stopped,
        step: if service != ServiceState::Stopped {
            ReplacementStep::Stop
        } else {
            ReplacementStep::Persist
        },
        published: false,
    }
}

/// What a step leads to.
pub open spec fn nextReplacement(
    replacement: ListenerReplacement,
    succeeded: bool,
) -> ListenerReplacement {
    match replacement.step {
        ReplacementStep::Stop => ListenerReplacement {
            step: if succeeded {
                ReplacementStep::Persist
            } else {
                ReplacementStep::StopFailed
            },
            ..replacement
        },
        ReplacementStep::Persist => ListenerReplacement {
            step: if succeeded {
                ReplacementStep::Publish
            } else if replacement.restartRequired {
                ReplacementStep::RestartOld
            } else {
                ReplacementStep::Refused
            },
            ..replacement
        },
        ReplacementStep::RestartOld => ListenerReplacement {
            step: ReplacementStep::Refused,
            ..replacement
        },
        ReplacementStep::Publish => ListenerReplacement {
            step: if replacement.restartRequired {
                ReplacementStep::Start
            } else {
                ReplacementStep::Done
            },
            published: true,
            ..replacement
        },
        ReplacementStep::Start => ListenerReplacement {
            step: if succeeded {
                ReplacementStep::Done
            } else {
                ReplacementStep::StartFailed
            },
            ..replacement
        },
        _ => replacement,
    }
}

impl ListenerReplacement {
    /// A replacement at its start.
    pub fn start(service: ServiceState) -> (result: ListenerReplacement)
        ensures
            result == startedReplacement(service),
    {
        let restartRequired = service != ServiceState::Stopped;
        ListenerReplacement {
            restartRequired,
            step: if restartRequired {
                ReplacementStep::Stop
            } else {
                ReplacementStep::Persist
            },
            published: false,
        }
    }

    /// What the current step leads to.
    pub fn replaceAuxiliaryListeners(self, succeeded: bool) -> (result: ListenerReplacement)
        ensures
            result == nextReplacement(self, succeeded),
    {
        match self.step {
            ReplacementStep::Stop => ListenerReplacement {
                step: if succeeded {
                    ReplacementStep::Persist
                } else {
                    ReplacementStep::StopFailed
                },
                ..self
            },
            ReplacementStep::Persist => ListenerReplacement {
                step: if succeeded {
                    ReplacementStep::Publish
                } else if self.restartRequired {
                    ReplacementStep::RestartOld
                } else {
                    ReplacementStep::Refused
                },
                ..self
            },
            ReplacementStep::RestartOld => ListenerReplacement {
                step: ReplacementStep::Refused,
                ..self
            },
            ReplacementStep::Publish => ListenerReplacement {
                step: if self.restartRequired {
                    ReplacementStep::Start
                } else {
                    ReplacementStep::Done
                },
                published: true,
                ..self
            },
            ReplacementStep::Start => ListenerReplacement {
                step: if succeeded {
                    ReplacementStep::Done
                } else {
                    ReplacementStep::StartFailed
                },
                ..self
            },
            _ => self,
        }
    }

    /// The answer to a replacement that could not store its rules.
    pub fn refusal(&self) -> (result: Option<ApiError>)
        ensures
            match result {
                Some(error) => self.step == ReplacementStep::Refused && error@ == plainError(
                    500,
                    ErrorCode::ConfigurationPersistenceFailed,
                ),
                None => self.step != ReplacementStep::Refused,
            },
    {
        match self.step {
            ReplacementStep::Refused => Some(
                ApiError::internal(ErrorCode::ConfigurationPersistenceFailed),
            ),
            _ => None,
        }
    }
}

/// What holds of every replacement: new rules are in effect only once they were stored, and a service
/// that did not run is not started.
pub open spec fn isReplacementSound(replacement: ListenerReplacement) -> bool {
    &&& (replacement.published ==> replacement.step is Start || replacement.step is Done
        || replacement.step is StartFailed)
    &&& (replacement.step is Start || replacement.step is Done || replacement.step is StartFailed
        ==> replacement.published)
    &&& (replacement.step is Stop || replacement.step is RestartOld || replacement.step is Start
        ==> replacement.restartRequired)
}

/// A replacement keeps the old rules until the new ones are stored, whatever fails on the way.
pub proof fn lawRulesArePublishedAfterStorage(
    service: ServiceState,
    replacement: ListenerReplacement,
    succeeded: bool,
)
    ensures
        isReplacementSound(startedReplacement(service)),
        isReplacementSound(replacement) ==> isReplacementSound(
            nextReplacement(replacement, succeeded),
        ),
        nextReplacement(replacement, succeeded).published && !replacement.published
            ==> replacement.step == ReplacementStep::Publish,
{
}

/// Auxiliary listeners are accepted exactly where the rules hold together, every rule that is on has a place to
/// listen and none takes the place of a main listener that is on.
pub proof fn lawFreePlacesAreAccepted(
    rulesValid: bool,
    socks: IpAddress,
    socksPort: u16,
    http: IpAddress,
    httpPort: u16,
    httpEnabled: bool,
    endpoints: Seq<Option<Endpoint>>,
)
    ensures
        auxiliaryProblem(
            rulesValid,
            Some(socks),
            socksPort,
            Some(http),
            httpPort,
            httpEnabled,
            endpoints,
        ) is None <==> rulesValid && forall|i: int|
            0 <= i < endpoints.len() ==> {
                &&& (#[trigger] endpoints[i]) matches Some(endpoint) && {
                    let taken = |address: IpAddress, port: u16| port == endpoint.port && (address
                        == endpoint.address || isUnspecified(address) || isUnspecified(
                        endpoint.address,
                    ));
                    !taken(socks, socksPort) && !(httpEnabled && taken(http, httpPort))
                }
            },
        !rulesValid ==> auxiliaryProblem(
            rulesValid,
            Some(socks),
            socksPort,
            Some(http),
            httpPort,
            httpEnabled,
            endpoints,
        ) == Some(plainError(400, ErrorCode::InvalidConfiguration)),
        forall|i: int|
            rulesValid && 0 <= i < endpoints.len() && (forall|k: int|
                0 <= k < endpoints.len() ==> (#[trigger] endpoints[k]) is Some) && (
            #[trigger] endpoints[i])->0 == (Endpoint { address: socks, port: socksPort })
                ==> auxiliaryProblem(
                rulesValid,
                Some(socks),
                socksPort,
                Some(http),
                httpPort,
                httpEnabled,
                endpoints,
            ) == Some(plainError(400, ErrorCode::ListenerConfigurationConflict)),
{
    let first = ProtectedListener { address: socks, port: socksPort, enabled: true };
    let second = ProtectedListener { address: http, port: httpPort, enabled: httpEnabled };
    let problem = auxiliaryProblem(
        rulesValid,
        Some(socks),
        socksPort,
        Some(http),
        httpPort,
        httpEnabled,
        endpoints,
    );
    if problem is None {
        assert forall|i: int| 0 <= i < endpoints.len() implies (#[trigger] endpoints[i]) is Some
            && !clashesWith(first, endpoints[i]->0) && !clashesWith(second, endpoints[i]->0) by {}
    }
    assert forall|i: int|
        rulesValid && 0 <= i < endpoints.len() && (forall|k: int|
            0 <= k < endpoints.len() ==> (#[trigger] endpoints[k]) is Some) && (
        #[trigger] endpoints[i])->0 == (Endpoint {
            address: socks,
            port: socksPort,
        }) implies problem == Some(plainError(400, ErrorCode::ListenerConfigurationConflict)) by {
        assert(clashesWith(first, endpoints[i]->0));
    }
}

/// The places of the rules that are on are looked at, each of them, in order.
pub proof fn lawRulesThatAreOnListen(rules: Seq<ListenRule>, rule: ListenRule)
    ensures
        onEndpoints(Seq::empty()).len() == 0,
        rule.enabled ==> onEndpoints(rules.push(rule)) == onEndpoints(rules).push(rule.endpoint),
        !rule.enabled ==> onEndpoints(rules.push(rule)) == onEndpoints(rules),
{
    assert(rules.push(rule).drop_last() =~= rules);
}

/// One collection is replaced and the other stays.
pub proof fn lawOtherCollectionStays<R, F>(
    configuration: AuxiliaryConfiguration<R, F>,
    reverseProxies: R,
    portForwards: F,
)
    ensures
        withCollection(configuration, AuxiliaryChange::ReverseProxies(reverseProxies))
            == (AuxiliaryConfiguration {
            reverseProxies,
            portForwards: configuration.portForwards,
        }),
        withCollection(configuration, AuxiliaryChange::PortForwards(portForwards))
            == (AuxiliaryConfiguration {
            reverseProxies: configuration.reverseProxies,
            portForwards,
        }),
{
}

/// New rules take their way: a service that runs is stopped, the rules are stored and put into effect, and the
/// service is started with them; where they cannot be stored it is started with the old ones, and a service
/// that did not run is left alone.
pub proof fn lawReplacementTakesItsWay(service: ServiceState, replacement: ListenerReplacement)
    ensures
        startedReplacement(service).restartRequired <==> service != ServiceState::Stopped,
        startedReplacement(service).step == if service == ServiceState::Stopped {
            ReplacementStep::Persist
        } else {
            ReplacementStep::Stop
        },
        ({
            let leads = |step: ReplacementStep, succeeded: bool| nextReplacement(
                ListenerReplacement { step, ..replacement },
                succeeded,
            ).step;
            &&& leads(ReplacementStep::Stop, true) == ReplacementStep::Persist
            &&& leads(ReplacementStep::Stop, false) == ReplacementStep::StopFailed
            &&& leads(ReplacementStep::Persist, true) == ReplacementStep::Publish
            &&& replacement.restartRequired ==> leads(ReplacementStep::Persist, false)
                == ReplacementStep::RestartOld
            &&& !replacement.restartRequired ==> leads(ReplacementStep::Persist, false)
                == ReplacementStep::Refused
            &&& leads(ReplacementStep::RestartOld, true) == ReplacementStep::Refused
            &&& leads(ReplacementStep::RestartOld, false) == ReplacementStep::Refused
            &&& replacement.restartRequired ==> leads(ReplacementStep::Publish, true)
                == ReplacementStep::Start
            &&& !replacement.restartRequired ==> leads(ReplacementStep::Publish, true)
                == ReplacementStep::Done
            &&& leads(ReplacementStep::Start, true) == ReplacementStep::Done
            &&& leads(ReplacementStep::Start, false) == ReplacementStep::StartFailed
        }),
        nextReplacement(
            ListenerReplacement { step: ReplacementStep::Publish, ..replacement },
            true,
        ).published,
{
}

} // verus!
