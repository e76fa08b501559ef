//! The built-in tool server: its configuration and how it is switched while everything else runs on.

use crate::controlApi::httpControl::{detailedError, plainError, ApiError, ApiErrorView};
use crate::localization::ErrorCode;
use crate::text::{copyOptional, optionalView};
use vstd::prelude::*;

verus! {

/// The port of the tool server where none was chosen.
pub const defaultMcpPort: u16 = 17891;

/// What is remembered of the tool server across restarts. It always listens on the machine itself.
#[derive(Clone, Copy, Debug, PartialEq, Eq, Structural)]
pub struct McpConfiguration {
    pub enabled: bool,
    pub port: u16,
}

impl Default for McpConfiguration {
    /// The tool server is off until it is asked for.
    fn default() -> (result: McpConfiguration)
        ensures
            result == (McpConfiguration { enabled: false, port: defaultMcpPort }),
    {
        McpConfiguration { enabled: false, port: defaultMcpPort }
    }
}

/// What clients see of the tool server.
#[derive(Debug)]
pub struct McpPublicState {
    pub configuration: McpConfiguration,
    pub running: bool,
    pub endpoint: Option<String>,
    pub lastError: Option<String>,
}

/// The tool server: its configuration, the address it answers on while it runs, and why it could not
/// be started.
#[derive(Debug)]
pub struct McpManager {
    pub configuration: McpConfiguration,
    pub endpoint: Option<String>,
    pub lastError: Option<String>,
}

/// The mathematical value of the tool server.
pub struct McpView {
    pub configuration: McpConfiguration,
    pub endpoint: Option<Seq<char>>,
    pub lastError: Option<Seq<char>>,
}

impl View for McpManager {
    type V = McpView;

    open spec fn view(&self) -> McpView {
        McpView {
            configuration: self.configuration,
            endpoint: optionalView(self.endpoint),
            lastError: optionalView(self.lastError),
        }
    }
}

/// What is done next to put a configuration into effect.
#[derive(Clone, Copy, Debug, PartialEq, Eq, Structural)]
pub enum McpStep {
    /// Nothing changes.
    Keep,
    /// Start a server on a port, while the old one still runs.
    Start(u16),
    /// Stop the old server.
    Stop,
    /// Take the configuration over.
    Commit,
}

/// What is done once a new server runs, or none is wanted.
pub open spec fn afterStarting(state: McpView) -> McpStep {
    if state.endpoint is Some {
        McpStep::Stop
    } else {
        McpStep::Commit
    }
}

/// What is done first for a configuration.
pub open spec fn firstMcpStep(state: McpView, configuration: McpConfiguration) -> Result<
    McpStep,
    ApiErrorView,
> {
    if configuration.port == 0 {
        Err(plainError(400, ErrorCode::InvalidConfiguration))
    } else if configuration == state.configuration {
        Ok(McpStep::Keep)
    } else if configuration.enabled {
        Ok(McpStep::Start(configuration.port))
    } else {
        Ok(afterStarting(state))
    }
}

/// The value of a step or of the error that ends a switch.
pub open spec fn mcpResult(result: Result<McpStep, ApiError>) -> Result<McpStep, ApiErrorView> {
    match result {
        Ok(step) => Ok(step),
        Err(error) => Err(error@),
    }
}

impl McpManager {
    /// Restores the tool server. `started` is what starting it came to, where it is on: the address it
    /// answers on, or why it could not be started. A failure is kept and stops nothing else.
    pub fn new(configuration: McpConfiguration, started: Result<String, String>) -> (result:
        McpManager)
        ensures
            result@.configuration == configuration,
            !configuration.enabled ==> result@.endpoint is None && result@.lastError is None,
            configuration.enabled ==> match started {
                Ok(endpoint) => result@.endpoint == Some(endpoint@) && result@.lastError is None,
                Err(error) => result@.endpoint is None && result@.lastError == Some(error@),
            },
    {
        if !configuration.enabled {
            return McpManager { configuration, endpoint: None, lastError: None };
        }
        match started {
            Ok(endpoint) => McpManager { configuration, endpoint: Some(endpoint), lastError: None },
            Err(error) => McpManager { configuration, endpoint: None, lastError: Some(error) },
        }
    }

    /// What clients see now.
    pub fn publicState(&self) -> (result: McpPublicState)
        ensures
            result.configuration == self@.configuration,
            result.running == self@.endpoint is Some,
            optionalView(result.endpoint) == self@.endpoint,
            optionalView(result.lastError) == self@.lastError,
    {
        McpPublicState {
            configuration: self.configuration,
            running: self.endpoint.is_some(),
            endpoint: copyOptional(&self.endpoint),
            lastError: copyOptional(&self.lastError),
        }
    }

    /// What is done first to put a configuration into effect.
    pub fn replace(&self, configuration: McpConfiguration) -> (result: Result<McpStep, ApiError>)
        ensures
            mcpResult(result) == firstMcpStep(self@, configuration),
    {
        if configuration.port == 0 {
            return Err(ApiError::badRequest(ErrorCode::InvalidConfiguration));
        }
        if configuration == self.configuration {
            return Ok(McpStep::Keep);
        }
        if configuration.enabled {
            return Ok(McpStep::Start(configuration.port));
        }
        Ok(self.stepAfterStarting())
    }

    fn stepAfterStarting(&self) -> (result: McpStep)
        ensures
            result == afterStarting(self@),
    {
        if self.endpoint.is_some() {
            McpStep::Stop
        } else {
            McpStep::Commit
        }
    }

    /// What follows an attempt to start the new server; a failure leaves everything as it was.
    pub fn settleStart(&self, error: Option<String>) -> (result: Result<McpStep, ApiError>)
        ensures
            mcpResult(result) == match error {
                Some(detail) => Err(detailedError(500, ErrorCode::ServiceStartFailed, detail@)),
                None => Ok(afterStarting(self@)),
            },
    {
        match error {
            Some(detail) => Err(
                ApiError::internal(ErrorCode::ServiceStartFailed).withDetail(detail),
            ),
            None => Ok(self.stepAfterStarting()),
        }
    }

    /// What follows an attempt to stop the old server, which is given up either way.
    pub fn settleStop(&mut self, error: Option<String>) -> (result: Result<McpStep, ApiError>)
        ensures
            final(self)@ == (McpView { endpoint: None, ..old(self)@ }),
            mcpResult(result) == match error {
                Some(detail) => Err(detailedError(500, ErrorCode::ServiceStopFailed, detail@)),
                None => Ok(McpStep::Commit),
            },
    {
        self.endpoint = None;
        match error {
            Some(detail) => Err(
                ApiError::internal(ErrorCode::ServiceStopFailed).withDetail(detail),
            ),
            None => Ok(McpStep::Commit),
        }
    }

    /// Takes a configuration over, with the address of the new server if there is one.
    pub fn commit(&mut self, configuration: McpConfiguration, endpoint: Option<String>) -> (previous:
        McpConfiguration)
        ensures
            previous == old(self)@.configuration,
            final(self)@ == (McpView {
                configuration,
                endpoint: optionalView(endpoint),
                lastError: None,
            }),
    {
        let previous = self.configuration;
        self.configuration = configuration;
        self.endpoint = endpoint;
        self.lastError = None;
        previous
    }
}

/// A configuration to put back into effect, and the error that answers the client.
#[derive(Debug)]
pub struct McpRollback {
    pub restore: McpConfiguration,
    pub error: ApiError,
}

/// Settles a new configuration once it is in effect: one that cannot be stored gives way to the former.
pub fn replaceMcpConfiguration(previous: McpConfiguration, failure: Option<String>) -> (result:
    Result<(), McpRollback>)
    ensures
        match failure {
            None => result is Ok,
            Some(detail) => result matches Err(rollback) && rollback.restore == previous
                && rollback.error@ == detailedError(
                500,
                ErrorCode::ConfigurationPersistenceFailed,
                detail@,
            ),
        },
{
    match failure {
        None => Ok(()),
        Some(detail) => Err(
            McpRollback {
                restore: previous,
                error: ApiError::internal(ErrorCode::ConfigurationPersistenceFailed).withDetail(
                    detail,
                ),
            },
        ),
    }
}

/// The old server is stopped only once the new one runs: a switch that begins by starting stops
/// nothing before, and one that begins by stopping starts nothing.
pub proof fn lawNewServerStartsFirst(state: McpView, configuration: McpConfiguration)
    ensures
        firstMcpStep(state, configuration) == Ok::<McpStep, ApiErrorView>(McpStep::Stop)
            ==> !configuration.enabled,
        firstMcpStep(state, configuration) is Ok && configuration.enabled && configuration
            != state.configuration ==> firstMcpStep(state, configuration) == Ok::<
            McpStep,
            ApiErrorView,
        >(McpStep::Start(configuration.port)),
        afterStarting(state) == McpStep::Stop || afterStarting(state) == McpStep::Commit,
{
}

/// A configuration that changes nothing is kept, one without a port is refused, one that is on is started, and one
/// that is off stops what runs.
pub proof fn lawConfigurationDecidesTheServer(state: McpView, configuration: McpConfiguration)
    ensures
        configuration.port == 0 ==> firstMcpStep(state, configuration) == Err::<
            McpStep,
            ApiErrorView,
        >(plainError(400, ErrorCode::InvalidConfiguration)),
        configuration.port != 0 && configuration == state.configuration ==> firstMcpStep(
            state,
            configuration,
        ) == Ok::<McpStep, ApiErrorView>(McpStep::Keep),
        configuration.port != 0 && configuration != state.configuration && configuration.enabled
            ==> firstMcpStep(state, configuration) == Ok::<McpStep, ApiErrorView>(
            McpStep::Start(configuration.port),
        ),
        configuration.port != 0 && configuration != state.configuration && !configuration.enabled
            ==> firstMcpStep(state, configuration) == Ok::<McpStep, ApiErrorView>(
            if state.endpoint is Some {
                McpStep::Stop
            } else {
                McpStep::Commit
            },
        ),
        state.endpoint is Some <==> afterStarting(state) == McpStep::Stop,
        state.endpoint is None <==> afterStarting(state) == McpStep::Commit,
{
}

} // verus!
