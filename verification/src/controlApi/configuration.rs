//! The service configuration: what clients may see, what they may ask for, and how a request
//! becomes a configuration.

use crate::controlApi::accountServiceSupervisor::MultiAccountPublicState;
use crate::controlApi::clientPackageControl::nodeAddress::clientRulesHost;
use crate::controlApi::httpControl::{
    detailedError, errorWith, plainError, ApiError, ApiErrorView,
};
use crate::localization::ErrorCode;
use crate::network::{Endpoint, HostAddress, IpAddress};
use crate::text::{copyText, optionalView, sortTexts, sortedTexts, views};
use vstd::prelude::*;

verus! {

// ---------------------------------------------------------------------------
// Internal configuration
// ---------------------------------------------------------------------------

/// How clients of the proxy identify themselves.
#[derive(Clone, Copy, Debug, PartialEq, Eq, Structural)]
pub enum AuthenticationMode {
    NoAuth,
    UsernamePassword,
    Plugin,
    AccountService,
}

/// The authentication modes as clients see them.
#[derive(Clone, Copy, Debug, PartialEq, Eq, Structural)]
pub enum PublicAuthenticationMode {
    Open,
    Password,
    Plugin,
}

/// One account of the proxy; the password never leaves the backend.
#[derive(Clone, Debug)]
pub struct CredentialsUpdate {
    pub username: String,
    pub password: String,
}

/// The name and the password of an account.
pub open spec fn credentialsView(credentials: CredentialsUpdate) -> (Seq<char>, Seq<char>) {
    (credentials.username@, credentials.password@)
}

/// The names and passwords of accounts.
pub open spec fn usersView(users: Seq<CredentialsUpdate>) -> Seq<(Seq<char>, Seq<char>)> {
    users.map_values(|user: CredentialsUpdate| credentialsView(user))
}

/// The address and the text of a host.
pub open spec fn hostView(host: HostAddress) -> (IpAddress, Seq<char>) {
    (host.address, host.text@)
}

/// The address and the text of a host that may not have parsed.
pub open spec fn parsedView(host: Option<HostAddress>) -> Option<(IpAddress, Seq<char>)> {
    match host {
        Some(parsed) => Some(hostView(parsed)),
        None => None,
    }
}

/// The time limits of the proxy, in milliseconds.
#[derive(Clone, Copy, Debug, PartialEq, Eq, Structural)]
pub struct Socks5Timeouts {
    pub connect: u64,
    pub bind: u64,
    pub idle: u64,
    pub shutdown: u64,
    pub read: u64,
}

/// The sizes of the proxy that a client may choose.
#[derive(Clone, Copy, Debug, PartialEq, Eq, Structural)]
pub struct Socks5Limits {
    pub maxConnections: usize,
    pub relayBufferSize: usize,
    pub udpMaxPacketSize: usize,
}

/// The configuration of the SOCKS5 data plane.
#[derive(Clone, Debug)]
pub struct Socks5Config {
    pub listenHost: HostAddress,
    pub listenPort: u16,
    pub authenticationMode: AuthenticationMode,
    pub users: Vec<CredentialsUpdate>,
    pub timeouts: Socks5Timeouts,
    pub limits: Socks5Limits,
    pub udpBindHost: String,
    pub udpRemoteLimit: usize,
    pub sessionHistoryLimit: usize,
}

/// The mathematical value of a SOCKS5 configuration.
pub struct Socks5View {
    pub host: (IpAddress, Seq<char>),
    pub port: u16,
    pub mode: AuthenticationMode,
    pub users: Seq<(Seq<char>, Seq<char>)>,
    pub timeouts: Socks5Timeouts,
    pub limits: Socks5Limits,
    pub udpBindHost: Seq<char>,
    pub udpRemoteLimit: usize,
    pub sessionHistoryLimit: usize,
}

impl View for Socks5Config {
    type V = Socks5View;

    open spec fn view(&self) -> Socks5View {
        Socks5View {
            host: hostView(self.listenHost),
            port: self.listenPort,
            mode: self.authenticationMode,
            users: usersView(self.users@),
            timeouts: self.timeouts,
            limits: self.limits,
            udpBindHost: self.udpBindHost@,
            udpRemoteLimit: self.udpRemoteLimit,
            sessionHistoryLimit: self.sessionHistoryLimit,
        }
    }
}

/// A second proxy that all traffic goes through; `protocol` is its name on the wire.
#[derive(Clone, Debug)]
pub struct UpstreamProxyConfiguration {
    pub enabled: bool,
    pub protocol: String,
    pub host: String,
    pub port: u16,
    pub username: String,
    pub password: String,
}

/// The mathematical value of an upstream proxy.
pub struct UpstreamView {
    pub enabled: bool,
    pub protocol: Seq<char>,
    pub host: Seq<char>,
    pub port: u16,
    pub username: Seq<char>,
    pub password: Seq<char>,
}

impl View for UpstreamProxyConfiguration {
    type V = UpstreamView;

    open spec fn view(&self) -> UpstreamView {
        UpstreamView {
            enabled: self.enabled,
            protocol: self.protocol@,
            host: self.host@,
            port: self.port,
            username: self.username@,
            password: self.password@,
        }
    }
}

/// The sizes and time limits of the HTTP proxy.
#[derive(Clone, Copy, Debug, PartialEq, Eq, Structural)]
pub struct HttpProxyLimits {
    pub maxConnections: usize,
    pub maxHeaderBytes: usize,
    pub maxCaptureBodyBytes: usize,
    pub connectTimeoutMilliseconds: u64,
    pub requestTimeoutMilliseconds: u64,
    pub headerReadTimeoutMilliseconds: u64,
    pub shutdownTimeoutMilliseconds: u64,
}

/// The configuration of the HTTP data plane.
#[derive(Clone, Debug)]
pub struct ManagedHttpProxyConfiguration {
    pub enabled: bool,
    pub listenHost: HostAddress,
    pub listenPort: u16,
    pub limits: HttpProxyLimits,
    pub upstreamProxy: UpstreamProxyConfiguration,
}

/// The mathematical value of an HTTP configuration.
pub struct HttpView {
    pub enabled: bool,
    pub host: (IpAddress, Seq<char>),
    pub port: u16,
    pub limits: HttpProxyLimits,
    pub upstream: UpstreamView,
}

impl View for ManagedHttpProxyConfiguration {
    type V = HttpView;

    open spec fn view(&self) -> HttpView {
        HttpView {
            enabled: self.enabled,
            host: hostView(self.listenHost),
            port: self.listenPort,
            limits: self.limits,
            upstream: self.upstreamProxy@,
        }
    }
}

/// The configuration of the process capture.
#[derive(Clone, Debug)]
pub struct ProcessCaptureConfiguration {
    pub enabled: bool,
    pub processIds: Vec<u32>,
    pub proxyPort: u16,
    pub proxyAddress: IpAddress,
}

/// The mathematical value of a capture configuration.
pub struct CaptureView {
    pub enabled: bool,
    pub processIds: Seq<u32>,
    pub proxyPort: u16,
    pub proxyAddress: IpAddress,
}

impl View for ProcessCaptureConfiguration {
    type V = CaptureView;

    open spec fn view(&self) -> CaptureView {
        CaptureView {
            enabled: self.enabled,
            processIds: self.processIds@,
            proxyPort: self.proxyPort,
            proxyAddress: self.proxyAddress,
        }
    }
}

/// The listening address of the account service.
#[derive(Clone, Debug)]
pub struct MultiAccountConfiguration {
    pub enabled: bool,
    pub remoteHost: String,
    pub remotePort: u16,
}

/// The mathematical value of an account service configuration.
pub struct AccountView {
    pub enabled: bool,
    pub remoteHost: Seq<char>,
    pub remotePort: u16,
}

impl View for MultiAccountConfiguration {
    type V = AccountView;

    open spec fn view(&self) -> AccountView {
        AccountView {
            enabled: self.enabled,
            remoteHost: self.remoteHost@,
            remotePort: self.remotePort,
        }
    }
}

impl Default for MultiAccountConfiguration {
    /// The remote entry is off until someone switches it on.
    fn default() -> (result: MultiAccountConfiguration)
        ensures
            !result.enabled,
            result.remoteHost@ == "0.0.0.0"@,
            result.remotePort == 19_090,
    {
        MultiAccountConfiguration {
            enabled: false,
            remoteHost: copyText("0.0.0.0"),
            remotePort: 19_090,
        }
    }
}

/// Why an account service cannot listen; `parsedHost` is its host where that is an address.
pub open spec fn publicAddressError(remotePort: u16, parsedHost: Option<IpAddress>) -> Option<
    Seq<char>,
> {
    if remotePort == 0 {
        Some("远程管理端口不能为 0"@)
    } else if parsedHost is None {
        Some("远程管理监听地址无效"@)
    } else {
        None
    }
}

impl MultiAccountConfiguration {
    /// The address to listen on. `parsedHost` is the configured host, where it is an address.
    pub fn publicAddress(&self, parsedHost: Option<IpAddress>) -> (result: Result<Endpoint, String>)
        ensures
            match result {
                Ok(endpoint) => {
                    &&& publicAddressError(self.remotePort, parsedHost) is None
                    &&& parsedHost == Some(endpoint.address)
                    &&& endpoint.port == self.remotePort
                },
                Err(detail) => publicAddressError(self.remotePort, parsedHost) == Some(detail@),
            },
    {
        if self.remotePort == 0 {
            return Err(copyText("远程管理端口不能为 0"));
        }
        match parsedHost {
            Some(address) => Ok(Endpoint { address, port: self.remotePort }),
            None => Err(copyText("远程管理监听地址无效")),
        }
    }

    /// Whether two configurations are the same.
    pub fn sameAs(&self, other: &MultiAccountConfiguration) -> (result: bool)
        ensures
            result == (self@ == other@),
    {
        self.enabled == other.enabled && self.remotePort == other.remotePort
            && crate::text::equalText(self.remoteHost.as_str(), other.remoteHost.as_str())
    }

    /// An independent copy.
    pub fn copied(&self) -> (result: MultiAccountConfiguration)
        ensures
            result@ == self@,
    {
        MultiAccountConfiguration {
            enabled: self.enabled,
            remoteHost: copyText(self.remoteHost.as_str()),
            remotePort: self.remotePort,
        }
    }
}

// ---------------------------------------------------------------------------
// Requests
// ---------------------------------------------------------------------------

/// A time limit as a client wrote it, in seconds: what it is in milliseconds, or why it is none.
#[derive(Clone, Copy, Debug, PartialEq, Eq, Structural)]
pub enum TimeoutInput {
    Milliseconds(u64),
    NotPositiveFinite,
    OutOfRange,
    BelowMillisecond,
}

/// The error of a time limit that cannot be accepted.
pub open spec fn timeoutError(fieldName: Seq<char>, input: TimeoutInput) -> Option<ApiErrorView> {
    match input {
        TimeoutInput::Milliseconds(_) => None,
        TimeoutInput::NotPositiveFinite => Some(
            errorWith(
                plainError(400, ErrorCode::TimeoutMustBePositiveFinite),
                "fieldName"@,
                fieldName,
            ),
        ),
        TimeoutInput::OutOfRange => Some(
            errorWith(plainError(400, ErrorCode::TimeoutOutOfRange), "fieldName"@, fieldName),
        ),
        TimeoutInput::BelowMillisecond => Some(
            errorWith(plainError(400, ErrorCode::TimeoutBelowMillisecond), "fieldName"@, fieldName),
        ),
    }
}

/// Takes a time limit, or names the field that cannot be accepted.
pub fn secondsToMilliseconds(fieldName: &str, input: TimeoutInput) -> (result: Result<
    u64,
    ApiError,
>)
    ensures
        match result {
            Ok(milliseconds) => input == TimeoutInput::Milliseconds(milliseconds),
            Err(error) => timeoutError(fieldName@, input) == Some(error@),
        },
{
    match input {
        TimeoutInput::Milliseconds(milliseconds) => Ok(milliseconds),
        TimeoutInput::NotPositiveFinite => Err(
            ApiError::badRequest(ErrorCode::TimeoutMustBePositiveFinite).withParam(
                "fieldName",
                copyText(fieldName),
            ),
        ),
        TimeoutInput::OutOfRange => Err(
            ApiError::badRequest(ErrorCode::TimeoutOutOfRange).withParam(
                "fieldName",
                copyText(fieldName),
            ),
        ),
        TimeoutInput::BelowMillisecond => Err(
            ApiError::badRequest(ErrorCode::TimeoutBelowMillisecond).withParam(
                "fieldName",
                copyText(fieldName),
            ),
        ),
    }
}

/// The time limits as a client wrote them.
#[derive(Clone, Copy, Debug, PartialEq, Eq, Structural)]
pub struct TimeoutInputs {
    pub connect: TimeoutInput,
    pub bind: TimeoutInput,
    pub idle: TimeoutInput,
    pub shutdown: TimeoutInput,
    pub read: TimeoutInput,
}

/// The first time limit that cannot be accepted.
pub open spec fn timeoutsError(inputs: TimeoutInputs) -> Option<ApiErrorView> {
    if timeoutError("connectTimeout"@, inputs.connect) is Some {
        timeoutError("connectTimeout"@, inputs.connect)
    } else if timeoutError("bindTimeout"@, inputs.bind) is Some {
        timeoutError("bindTimeout"@, inputs.bind)
    } else if timeoutError("idleTimeout"@, inputs.idle) is Some {
        timeoutError("idleTimeout"@, inputs.idle)
    } else if timeoutError("shutdownTimeout"@, inputs.shutdown) is Some {
        timeoutError("shutdownTimeout"@, inputs.shutdown)
    } else {
        timeoutError("readTimeout"@, inputs.read)
    }
}

/// Time limits that are all accepted.
pub open spec fn acceptedTimeouts(timeouts: Socks5Timeouts) -> TimeoutInputs {
    TimeoutInputs {
        connect: TimeoutInput::Milliseconds(timeouts.connect),
        bind: TimeoutInput::Milliseconds(timeouts.bind),
        idle: TimeoutInput::Milliseconds(timeouts.idle),
        shutdown: TimeoutInput::Milliseconds(timeouts.shutdown),
        read: TimeoutInput::Milliseconds(timeouts.read),
    }
}

fn takeTimeouts(inputs: TimeoutInputs) -> (result: Result<Socks5Timeouts, ApiError>)
    ensures
        match result {
            Ok(timeouts) => timeoutsError(inputs) is None && inputs == acceptedTimeouts(timeouts),
            Err(error) => timeoutsError(inputs) == Some(error@),
        },
{
    let connect = match secondsToMilliseconds("connectTimeout", inputs.connect) {
        Ok(value) => value,
        Err(error) => {
            return Err(error);
        },
    };
    let bind = match secondsToMilliseconds("bindTimeout", inputs.bind) {
        Ok(value) => value,
        Err(error) => {
            return Err(error);
        },
    };
    let idle = match secondsToMilliseconds("idleTimeout", inputs.idle) {
        Ok(value) => value,
        Err(error) => {
            return Err(error);
        },
    };
    let shutdown = match secondsToMilliseconds("shutdownTimeout", inputs.shutdown) {
        Ok(value) => value,
        Err(error) => {
            return Err(error);
        },
    };
    let read = match secondsToMilliseconds("readTimeout", inputs.read) {
        Ok(value) => value,
        Err(error) => {
            return Err(error);
        },
    };
    Ok(Socks5Timeouts { connect, bind, idle, shutdown, read })
}

/// The HTTP settings of a request, and as clients see them.
#[derive(Debug)]
pub struct PublicHttpProxyConfiguration {
    pub enabled: bool,
    pub listenHost: String,
    pub listenPort: u16,
    pub limits: HttpProxyLimits,
}

/// The mathematical value of public HTTP settings.
pub struct PublicHttpView {
    pub enabled: bool,
    pub listenHost: Seq<char>,
    pub listenPort: u16,
    pub limits: HttpProxyLimits,
}

impl View for PublicHttpProxyConfiguration {
    type V = PublicHttpView;

    open spec fn view(&self) -> PublicHttpView {
        PublicHttpView {
            enabled: self.enabled,
            listenHost: self.listenHost@,
            listenPort: self.listenPort,
            limits: self.limits,
        }
    }
}

/// The HTTP settings as clients see them.
pub open spec fn publicHttp(http: HttpView) -> PublicHttpView {
    PublicHttpView {
        enabled: http.enabled,
        listenHost: http.host.1,
        listenPort: http.port,
        limits: http.limits,
    }
}

/// Why HTTP settings cannot be accepted on their own; `verdict` is what their own validation says.
pub open spec fn httpError(
    http: PublicHttpView,
    host: Option<(IpAddress, Seq<char>)>,
    verdict: Option<Seq<char>>,
) -> Option<ApiErrorView> {
    if http.listenPort == 0 || host is None {
        Some(plainError(400, ErrorCode::InvalidHttpProxyConfiguration))
    } else {
        match verdict {
            Some(detail) => Some(
                detailedError(400, ErrorCode::InvalidHttpProxyConfiguration, detail),
            ),
            None => None,
        }
    }
}

/// An upstream proxy that is switched off.
pub open spec fn noUpstream() -> UpstreamView {
    UpstreamView {
        enabled: false,
        protocol: Seq::empty(),
        host: Seq::empty(),
        port: 0,
        username: Seq::empty(),
        password: Seq::empty(),
    }
}

impl PublicHttpProxyConfiguration {
    /// The HTTP settings as clients see them.
    pub fn fromInternal(configuration: &ManagedHttpProxyConfiguration) -> (result:
        PublicHttpProxyConfiguration)
        ensures
            result@ == publicHttp(configuration@),
    {
        PublicHttpProxyConfiguration {
            enabled: configuration.enabled,
            listenHost: copyText(configuration.listenHost.text.as_str()),
            listenPort: configuration.listenPort,
            limits: configuration.limits,
        }
    }

    /// Takes HTTP settings without an upstream proxy. `host` is the listening host, where it is an
    /// address; `verdict` is what the validation of the data plane objects to.
    pub fn intoInternal(&self, host: Option<HostAddress>, verdict: Option<String>) -> (result:
        Result<ManagedHttpProxyConfiguration, ApiError>)
        ensures
            match result {
                Ok(http) => {
                    &&& httpError(self@, parsedView(host), optionalView(verdict)) is None
                    &&& http@ == (HttpView {
                        enabled: self.enabled,
                        host: hostView(host->0),
                        port: self.listenPort,
                        limits: self.limits,
                        upstream: noUpstream(),
                    })
                },
                Err(error) => httpError(self@, parsedView(host), optionalView(verdict)) == Some(
                    error@,
                ),
            },
    {
        if self.listenPort == 0 {
            return Err(ApiError::badRequest(ErrorCode::InvalidHttpProxyConfiguration));
        }
        let listenHost = match host {
            Some(parsed) => parsed,
            None => {
                return Err(ApiError::badRequest(ErrorCode::InvalidHttpProxyConfiguration));
            },
        };
        if let Some(detail) = verdict {
            return Err(
                ApiError::badRequest(ErrorCode::InvalidHttpProxyConfiguration).withDetail(detail),
            );
        }
        Ok(
            ManagedHttpProxyConfiguration {
                enabled: self.enabled,
                listenHost,
                listenPort: self.listenPort,
                limits: self.limits,
                upstreamProxy: UpstreamProxyConfiguration {
                    enabled: false,
                    protocol: String::new(),
                    host: String::new(),
                    port: 0,
                    username: String::new(),
                    password: String::new(),
                },
            },
        )
    }
}

/// An upstream proxy as a client asks for it; without a password the current one stays.
#[derive(Debug)]
pub struct UpstreamProxyUpdate {
    pub enabled: bool,
    pub protocol: String,
    pub host: String,
    pub port: u16,
    pub username: String,
    pub password: Option<String>,
}

/// The upstream proxy that an update makes of the current one.
pub open spec fn updatedUpstream(update: UpstreamProxyUpdate, current: UpstreamView) -> UpstreamView {
    UpstreamView {
        enabled: update.enabled,
        protocol: update.protocol@,
        host: update.host@,
        port: update.port,
        username: update.username@,
        password: match update.password {
            Some(password) => password@,
            None => current.password,
        },
    }
}

impl UpstreamProxyUpdate {
    /// Merges an update with the current upstream proxy: an absent password keeps the current one,
    /// an empty one clears it.
    pub fn intoInternal(&self, current: &UpstreamProxyConfiguration) -> (result:
        UpstreamProxyConfiguration)
        ensures
            result@ == updatedUpstream(*self, current@),
    {
        UpstreamProxyConfiguration {
            enabled: self.enabled,
            protocol: copyText(self.protocol.as_str()),
            host: copyText(self.host.as_str()),
            port: self.port,
            username: copyText(self.username.as_str()),
            password: match &self.password {
                Some(password) => copyText(password.as_str()),
                None => copyText(current.password.as_str()),
            },
        }
    }
}

/// An upstream proxy as clients see it.
#[derive(Debug)]
pub struct PublicUpstreamProxyConfiguration {
    pub enabled: bool,
    pub protocol: String,
    pub host: String,
    pub port: u16,
    pub username: String,
    pub hasPassword: bool,
}

impl PublicUpstreamProxyConfiguration {
    /// Hides the password; clients only learn whether there is one.
    pub fn fromInternal(configuration: &UpstreamProxyConfiguration) -> (result:
        PublicUpstreamProxyConfiguration)
        ensures
            result.enabled == configuration.enabled,
            result.protocol@ == configuration.protocol@,
            result.host@ == configuration.host@,
            result.port == configuration.port,
            result.username@ == configuration.username@,
            result.hasPassword == (configuration.password@.len() > 0),
    {
        PublicUpstreamProxyConfiguration {
            enabled: configuration.enabled,
            protocol: copyText(configuration.protocol.as_str()),
            host: copyText(configuration.host.as_str()),
            port: configuration.port,
            username: copyText(configuration.username.as_str()),
            hasPassword: !configuration.password.as_str().is_empty(),
        }
    }
}

/// A whole configuration as a client asks for it, and as it is stored.
#[derive(Debug)]
pub struct ConfigurationUpdate {
    pub startServiceOnLaunch: bool,
    pub listenHost: String,
    pub listenPort: u16,
    pub authenticationMode: PublicAuthenticationMode,
    pub timeouts: TimeoutInputs,
    pub limits: Socks5Limits,
    pub udpBindHost: String,
    pub credentials: Option<CredentialsUpdate>,
    pub httpProxy: PublicHttpProxyConfiguration,
    pub upstreamProxy: UpstreamProxyUpdate,
    pub processCapture: ProcessCaptureConfiguration,
    pub multiAccount: MultiAccountConfiguration,
}

/// The hosts of an update, where they are addresses.
#[derive(Debug)]
pub struct ParsedHosts {
    pub listen: Option<HostAddress>,
    pub http: Option<HostAddress>,
    pub remote: Option<IpAddress>,
}

/// What the data planes' own validation objects to in the configuration that an update makes.
#[derive(Debug, Default)]
pub struct ConfigurationVerdicts {
    pub socks5: Option<String>,
    pub http: Option<String>,
    pub httpWithUpstream: Option<String>,
    pub processCapture: Option<String>,
}

/// A configuration that was accepted.
#[derive(Debug)]
pub struct ConfigurationCandidate {
    pub socks5: Socks5Config,
    pub http: ManagedHttpProxyConfiguration,
    pub processCapture: ProcessCaptureConfiguration,
    pub multiAccount: MultiAccountConfiguration,
}

/// The authentication that an update asks for.
pub enum AuthenticationView {
    Refused(ErrorCode),
    Accepted { mode: AuthenticationMode, users: Seq<(Seq<char>, Seq<char>)> },
}

/// The authentication that an update asks for: passwords need an account, given now or kept, and
/// the other modes take none.
pub open spec fn requestedAuthentication(
    mode: PublicAuthenticationMode,
    credentials: Option<(Seq<char>, Seq<char>)>,
    current: Socks5View,
) -> AuthenticationView {
    match mode {
        PublicAuthenticationMode::Open => if credentials is None {
            AuthenticationView::Accepted { mode: AuthenticationMode::NoAuth, users: Seq::empty() }
        } else {
            AuthenticationView::Refused(ErrorCode::CredentialsForbiddenWithoutAuthentication)
        },
        PublicAuthenticationMode::Plugin => if credentials is None {
            AuthenticationView::Accepted { mode: AuthenticationMode::Plugin, users: Seq::empty() }
        } else {
            AuthenticationView::Refused(ErrorCode::CredentialsForbiddenWithoutAuthentication)
        },
        PublicAuthenticationMode::Password => match credentials {
            Some(account) => if account.0.len() > 0 && account.1.len() > 0 {
                AuthenticationView::Accepted {
                    mode: AuthenticationMode::UsernamePassword,
                    users: seq![account],
                }
            } else {
                AuthenticationView::Refused(ErrorCode::CredentialsRequired)
            },
            None => if current.mode == AuthenticationMode::UsernamePassword && current.users.len()
                > 0 {
                AuthenticationView::Accepted {
                    mode: AuthenticationMode::UsernamePassword,
                    users: current.users,
                }
            } else {
                AuthenticationView::Refused(ErrorCode::CredentialsRequired)
            },
        },
    }
}

/// The account of an update.
pub open spec fn optionalCredentials(credentials: Option<CredentialsUpdate>) -> Option<
    (Seq<char>, Seq<char>),
> {
    match credentials {
        Some(account) => Some(credentialsView(account)),
        None => None,
    }
}

/// Why an update cannot be accepted, in the order in which its parts are looked at.
pub open spec fn updateError(
    update: ConfigurationUpdate,
    hosts: ParsedHosts,
    verdicts: ConfigurationVerdicts,
    current: Socks5View,
) -> Option<ApiErrorView> {
    let authentication = requestedAuthentication(
        update.authenticationMode,
        optionalCredentials(update.credentials),
        current,
    );
    if update.listenPort == 0 {
        Some(plainError(400, ErrorCode::InvalidListenPort))
    } else if hosts.listen is None {
        Some(plainError(400, ErrorCode::InvalidListenHost))
    } else if authentication is Refused {
        Some(plainError(400, authentication->Refused_0))
    } else if timeoutsError(update.timeouts) is Some {
        timeoutsError(update.timeouts)
    } else if verdicts.socks5 is Some {
        Some(detailedError(400, ErrorCode::InvalidConfiguration, verdicts.socks5->Some_0@))
    } else if httpError(update.httpProxy@, parsedView(hosts.http), optionalView(verdicts.http))
        is Some {
        httpError(update.httpProxy@, parsedView(hosts.http), optionalView(verdicts.http))
    } else if verdicts.httpWithUpstream is Some {
        Some(
            detailedError(
                400,
                ErrorCode::InvalidHttpProxyConfiguration,
                verdicts.httpWithUpstream->Some_0@,
            ),
        )
    } else if verdicts.processCapture is Some {
        Some(detailedError(400, ErrorCode::InvalidConfiguration, verdicts.processCapture->Some_0@))
    } else if publicAddressError(update.multiAccount.remotePort, hosts.remote) is Some {
        Some(
            detailedError(
                400,
                ErrorCode::InvalidConfiguration,
                publicAddressError(update.multiAccount.remotePort, hosts.remote)->0,
            ),
        )
    } else {
        None
    }
}

/// Whether a candidate is what an accepted update makes of the current configuration. HTTP shares
/// the listener of SOCKS5, and the process capture feeds it.
pub open spec fn isCandidate(
    candidate: ConfigurationCandidate,
    update: ConfigurationUpdate,
    host: (IpAddress, Seq<char>),
    current: Socks5View,
    currentHttp: HttpView,
) -> bool {
    let authentication = requestedAuthentication(
        update.authenticationMode,
        optionalCredentials(update.credentials),
        current,
    );
    &&& authentication is Accepted
    &&& update.timeouts == acceptedTimeouts(candidate.socks5.timeouts)
    &&& candidate.socks5@ == (Socks5View {
        host,
        port: update.listenPort,
        mode: authentication->mode,
        users: authentication->users,
        timeouts: candidate.socks5.timeouts,
        limits: update.limits,
        udpBindHost: update.udpBindHost@,
        udpRemoteLimit: current.udpRemoteLimit,
        sessionHistoryLimit: current.sessionHistoryLimit,
    })
    &&& candidate.http@ == (HttpView {
        enabled: true,
        host,
        port: update.listenPort,
        limits: update.httpProxy.limits,
        upstream: updatedUpstream(update.upstreamProxy, currentHttp.upstream),
    })
    &&& candidate.processCapture@ == (CaptureView {
        proxyPort: update.listenPort,
        proxyAddress: host.0,
        ..update.processCapture@
    })
    &&& candidate.multiAccount@ == update.multiAccount@
}

/// An independent copy of accounts.
pub fn copyUsers(users: &Vec<CredentialsUpdate>) -> (result: Vec<CredentialsUpdate>)
    ensures
        usersView(result@) == usersView(users@),
{
    let mut copied: Vec<CredentialsUpdate> = Vec::new();
    let mut i: usize = 0;
    while i < users.len()
        invariant
            i <= users.len(),
            usersView(copied@) == usersView(users@.take(i as int)),
        decreases users.len() - i,
    {
        let ghost before = usersView(copied@);
        copied.push(
            CredentialsUpdate {
                username: copyText(users[i].username.as_str()),
                password: copyText(users[i].password.as_str()),
            },
        );
        assert(usersView(copied@) == before.push(credentialsView(users@[i as int])));
        assert(usersView(users@.take(i + 1)) == before.push(credentialsView(users@[i as int])));
        i += 1;
    }
    assert(users@.take(i as int) == users@);
    copied
}

fn takeAuthentication(
    mode: PublicAuthenticationMode,
    credentials: Option<CredentialsUpdate>,
    current: &Socks5Config,
) -> (result: Result<(AuthenticationMode, Vec<CredentialsUpdate>), ApiError>)
    ensures
        match requestedAuthentication(mode, optionalCredentials(credentials), current@) {
            AuthenticationView::Refused(code) => result matches Err(error) && error@ == plainError(
                400,
                code,
            ),
            AuthenticationView::Accepted { mode, users } => result matches Ok(accepted)
                && accepted.0 == mode && usersView(accepted.1@) == users,
        },
{
    match mode {
        PublicAuthenticationMode::Open => match credentials {
            None => {
                let users: Vec<CredentialsUpdate> = Vec::new();
                assert(usersView(users@) == Seq::<(Seq<char>, Seq<char>)>::empty());
                Ok((AuthenticationMode::NoAuth, users))
            },
            Some(_) => Err(
                ApiError::badRequest(ErrorCode::CredentialsForbiddenWithoutAuthentication),
            ),
        },
        PublicAuthenticationMode::Plugin => match credentials {
            None => {
                let users: Vec<CredentialsUpdate> = Vec::new();
                assert(usersView(users@) == Seq::<(Seq<char>, Seq<char>)>::empty());
                Ok((AuthenticationMode::Plugin, users))
            },
            Some(_) => Err(
                ApiError::badRequest(ErrorCode::CredentialsForbiddenWithoutAuthentication),
            ),
        },
        PublicAuthenticationMode::Password => match credentials {
            Some(account) => {
                if account.username.as_str().is_empty() || account.password.as_str().is_empty() {
                    return Err(ApiError::badRequest(ErrorCode::CredentialsRequired));
                }
                let ghost value = credentialsView(account);
                let mut users: Vec<CredentialsUpdate> = Vec::new();
                users.push(account);
                assert(usersView(users@) == seq![value]);
                Ok((AuthenticationMode::UsernamePassword, users))
            },
            None => {
                assert(current@.users.len() == current.users@.len());
                if current.authenticationMode == AuthenticationMode::UsernamePassword
                    && current.users.len() > 0 {
                    Ok((AuthenticationMode::UsernamePassword, copyUsers(&current.users)))
                } else {
                    Err(ApiError::badRequest(ErrorCode::CredentialsRequired))
                }
            },
        },
    }
}

impl ConfigurationUpdate {
    /// Accepts an update as a whole or names the first thing that is wrong with it. `hosts` are
    /// the hosts that are addresses; `verdicts` are what the data planes object to.
    pub fn intoInternal(
        self,
        hosts: ParsedHosts,
        verdicts: ConfigurationVerdicts,
        current: &Socks5Config,
        currentHttp: &ManagedHttpProxyConfiguration,
    ) -> (result: Result<ConfigurationCandidate, ApiError>)
        ensures
            match result {
                Ok(candidate) => {
                    &&& updateError(self, hosts, verdicts, current@) is None
                    &&& isCandidate(
                        candidate,
                        self,
                        hostView(hosts.listen->0),
                        current@,
                        currentHttp@,
                    )
                },
                Err(error) => updateError(self, hosts, verdicts, current@) == Some(error@),
            },
    {
        if self.listenPort == 0 {
            return Err(ApiError::badRequest(ErrorCode::InvalidListenPort));
        }
        let listenHost = match hosts.listen {
            Some(host) => host,
            None => {
                return Err(ApiError::badRequest(ErrorCode::InvalidListenHost));
            },
        };
        let (authenticationMode, users) = match takeAuthentication(
            self.authenticationMode,
            self.credentials,
            current,
        ) {
            Ok(accepted) => accepted,
            Err(error) => {
                return Err(error);
            },
        };
        let timeouts = match takeTimeouts(self.timeouts) {
            Ok(timeouts) => timeouts,
            Err(error) => {
                return Err(error);
            },
        };
        if let Some(detail) = verdicts.socks5 {
            return Err(ApiError::badRequest(ErrorCode::InvalidConfiguration).withDetail(detail));
        }
        let ownHttp = match self.httpProxy.intoInternal(hosts.http, verdicts.http) {
            Ok(http) => http,
            Err(error) => {
                return Err(error);
            },
        };
        if let Some(detail) = verdicts.httpWithUpstream {
            return Err(
                ApiError::badRequest(ErrorCode::InvalidHttpProxyConfiguration).withDetail(detail),
            );
        }
        if let Some(detail) = verdicts.processCapture {
            return Err(ApiError::badRequest(ErrorCode::InvalidConfiguration).withDetail(detail));
        }
        if let Err(detail) = self.multiAccount.publicAddress(hosts.remote) {
            return Err(ApiError::badRequest(ErrorCode::InvalidConfiguration).withDetail(detail));
        }
        let http = ManagedHttpProxyConfiguration {
            enabled: true,
            listenHost: listenHost.copied(),
            listenPort: self.listenPort,
            limits: ownHttp.limits,
            upstreamProxy: self.upstreamProxy.intoInternal(&currentHttp.upstreamProxy),
        };
        let processCapture = ProcessCaptureConfiguration {
            enabled: self.processCapture.enabled,
            processIds: self.processCapture.processIds,
            proxyPort: self.listenPort,
            proxyAddress: listenHost.address,
        };
        let socks5 = Socks5Config {
            listenHost,
            listenPort: self.listenPort,
            authenticationMode,
            users,
            timeouts,
            limits: self.limits,
            udpBindHost: self.udpBindHost,
            udpRemoteLimit: current.udpRemoteLimit,
            sessionHistoryLimit: current.sessionHistoryLimit,
        };
        Ok(ConfigurationCandidate { socks5, http, processCapture, multiAccount: self.multiAccount })
    }
}

// ---------------------------------------------------------------------------
// Projections
// ---------------------------------------------------------------------------

/// The authentication mode as clients see it.
pub open spec fn publicMode(mode: AuthenticationMode) -> PublicAuthenticationMode {
    match mode {
        AuthenticationMode::NoAuth => PublicAuthenticationMode::Open,
        AuthenticationMode::UsernamePassword => PublicAuthenticationMode::Password,
        AuthenticationMode::Plugin => PublicAuthenticationMode::Plugin,
        AuthenticationMode::AccountService => PublicAuthenticationMode::Password,
    }
}

fn toPublicMode(mode: AuthenticationMode) -> (result: PublicAuthenticationMode)
    ensures
        result == publicMode(mode),
{
    match mode {
        AuthenticationMode::NoAuth => PublicAuthenticationMode::Open,
        AuthenticationMode::UsernamePassword => PublicAuthenticationMode::Password,
        AuthenticationMode::Plugin => PublicAuthenticationMode::Plugin,
        AuthenticationMode::AccountService => PublicAuthenticationMode::Password,
    }
}

/// Whether an update is the stored form of a configuration; unlike the public form it keeps the
/// passwords.
pub open spec fn isStoredForm(
    update: ConfigurationUpdate,
    socks5: Socks5View,
    http: HttpView,
    capture: CaptureView,
    account: AccountView,
    startServiceOnLaunch: bool,
) -> bool {
    &&& update.startServiceOnLaunch == startServiceOnLaunch
    &&& update.listenHost@ == socks5.host.1
    &&& update.listenPort == socks5.port
    &&& update.authenticationMode == publicMode(socks5.mode)
    &&& update.timeouts == acceptedTimeouts(socks5.timeouts)
    &&& update.limits == socks5.limits
    &&& update.udpBindHost@ == socks5.udpBindHost
    &&& optionalCredentials(update.credentials) == if socks5.users.len() > 0 {
        Some(socks5.users[0])
    } else {
        None
    }
    &&& update.httpProxy@ == publicHttp(http)
    &&& update.upstreamProxy.enabled == http.upstream.enabled
    &&& update.upstreamProxy.protocol@ == http.upstream.protocol
    &&& update.upstreamProxy.host@ == http.upstream.host
    &&& update.upstreamProxy.port == http.upstream.port
    &&& update.upstreamProxy.username@ == http.upstream.username
    &&& optionalView(update.upstreamProxy.password) == Some(http.upstream.password)
    &&& update.processCapture@ == capture
    &&& update.multiAccount@ == account
}

fn copyCapture(capture: &ProcessCaptureConfiguration) -> (result: ProcessCaptureConfiguration)
    ensures
        result@ == capture@,
{
    let mut processIds: Vec<u32> = Vec::new();
    let mut i: usize = 0;
    while i < capture.processIds.len()
        invariant
            i <= capture.processIds.len(),
            processIds@ == capture.processIds@.take(i as int),
        decreases capture.processIds.len() - i,
    {
        processIds.push(capture.processIds[i]);
        i += 1;
        assert(processIds@ == capture.processIds@.take(i as int));
    }
    assert(processIds@ == capture.processIds@);
    ProcessCaptureConfiguration {
        enabled: capture.enabled,
        processIds,
        proxyPort: capture.proxyPort,
        proxyAddress: capture.proxyAddress,
    }
}

impl ConfigurationUpdate {
    /// The stored form of a configuration.
    pub fn fromInternal(
        socks5: &Socks5Config,
        http: &ManagedHttpProxyConfiguration,
        processCapture: &ProcessCaptureConfiguration,
        multiAccount: &MultiAccountConfiguration,
        startServiceOnLaunch: bool,
    ) -> (result: ConfigurationUpdate)
        ensures
            isStoredForm(
                result,
                socks5@,
                http@,
                processCapture@,
                multiAccount@,
                startServiceOnLaunch,
            ),
    {
        assert(socks5@.users.len() == socks5.users@.len());
        let credentials = if socks5.users.len() > 0 {
            Some(
                CredentialsUpdate {
                    username: copyText(socks5.users[0].username.as_str()),
                    password: copyText(socks5.users[0].password.as_str()),
                },
            )
        } else {
            None
        };
        ConfigurationUpdate {
            startServiceOnLaunch,
            listenHost: copyText(socks5.listenHost.text.as_str()),
            listenPort: socks5.listenPort,
            authenticationMode: toPublicMode(socks5.authenticationMode),
            timeouts: TimeoutInputs {
                connect: TimeoutInput::Milliseconds(socks5.timeouts.connect),
                bind: TimeoutInput::Milliseconds(socks5.timeouts.bind),
                idle: TimeoutInput::Milliseconds(socks5.timeouts.idle),
                shutdown: TimeoutInput::Milliseconds(socks5.timeouts.shutdown),
                read: TimeoutInput::Milliseconds(socks5.timeouts.read),
            },
            limits: socks5.limits,
            udpBindHost: copyText(socks5.udpBindHost.as_str()),
            credentials,
            httpProxy: PublicHttpProxyConfiguration::fromInternal(http),
            upstreamProxy: UpstreamProxyUpdate {
                enabled: http.upstreamProxy.enabled,
                protocol: copyText(http.upstreamProxy.protocol.as_str()),
                host: copyText(http.upstreamProxy.host.as_str()),
                port: http.upstreamProxy.port,
                username: copyText(http.upstreamProxy.username.as_str()),
                password: Some(copyText(http.upstreamProxy.password.as_str())),
            },
            processCapture: copyCapture(processCapture),
            multiAccount: multiAccount.copied(),
        }
    }
}

/// A configuration as clients see it. It has no place for a password.
#[derive(Debug)]
pub struct PublicConfiguration {
    pub startServiceOnLaunch: bool,
    pub listenHost: String,
    pub listenPort: u16,
    pub authenticationMode: PublicAuthenticationMode,
    pub authenticationUsernames: Vec<String>,
    pub timeouts: Socks5Timeouts,
    pub limits: Socks5Limits,
    pub udpBindHost: String,
    pub httpProxy: PublicHttpProxyConfiguration,
    pub upstreamProxy: PublicUpstreamProxyConfiguration,
    pub processCapture: ProcessCaptureConfiguration,
    pub multiAccount: MultiAccountPublicState,
}

/// The names of accounts.
pub open spec fn usernames(users: Seq<(Seq<char>, Seq<char>)>) -> Seq<Seq<char>> {
    users.map_values(|user: (Seq<char>, Seq<char>)| user.0)
}

impl PublicConfiguration {
    /// The public form of a configuration; the names of accounts are sorted, so that equal
    /// configurations look equal.
    pub fn fromInternal(
        socks5: &Socks5Config,
        http: &ManagedHttpProxyConfiguration,
        processCapture: &ProcessCaptureConfiguration,
        startServiceOnLaunch: bool,
        multiAccount: MultiAccountPublicState,
    ) -> (result: PublicConfiguration)
        ensures
            result.startServiceOnLaunch == startServiceOnLaunch,
            result.listenHost@ == socks5@.host.1,
            result.listenPort == socks5.listenPort,
            result.authenticationMode == publicMode(socks5.authenticationMode),
            views(result.authenticationUsernames@) == sortedTexts(usernames(socks5@.users)),
            result.timeouts == socks5.timeouts,
            result.limits == socks5.limits,
            result.udpBindHost@ == socks5.udpBindHost@,
            result.httpProxy@ == publicHttp(http@),
            result.upstreamProxy.hasPassword == (http@.upstream.password.len() > 0),
            result.upstreamProxy.enabled == http.upstreamProxy.enabled,
            result.upstreamProxy.protocol@ == http.upstreamProxy.protocol@,
            result.upstreamProxy.host@ == http.upstreamProxy.host@,
            result.upstreamProxy.port == http.upstreamProxy.port,
            result.upstreamProxy.username@ == http.upstreamProxy.username@,
            result.processCapture@ == processCapture@,
            result.multiAccount == multiAccount,
    {
        let mut names: Vec<String> = Vec::new();
        let mut i: usize = 0;
        let ghost all = usernames(socks5@.users);
        while i < socks5.users.len()
            invariant
                i <= socks5.users.len(),
                all == usernames(socks5@.users),
                views(names@) == all.take(i as int),
            decreases socks5.users.len() - i,
        {
            let ghost before = views(names@);
            names.push(copyText(socks5.users[i].username.as_str()));
            assert(views(names@) == before.push(all[i as int]));
            i += 1;
            assert(views(names@) == all.take(i as int));
        }
        assert(all.take(i as int) == all);
        PublicConfiguration {
            startServiceOnLaunch,
            listenHost: copyText(socks5.listenHost.text.as_str()),
            listenPort: socks5.listenPort,
            authenticationMode: toPublicMode(socks5.authenticationMode),
            authenticationUsernames: sortTexts(&names),
            timeouts: socks5.timeouts,
            limits: socks5.limits,
            udpBindHost: copyText(socks5.udpBindHost.as_str()),
            httpProxy: PublicHttpProxyConfiguration::fromInternal(http),
            upstreamProxy: PublicUpstreamProxyConfiguration::fromInternal(&http.upstreamProxy),
            processCapture: copyCapture(processCapture),
            multiAccount,
        }
    }
}

/// Whether a configuration can be stored and read back: it listens somewhere, and its accounts fit its
/// mode.
pub open spec fn isStorable(socks5: Socks5View) -> bool {
    &&& socks5.port != 0
    &&& match socks5.mode {
        AuthenticationMode::NoAuth => socks5.users.len() == 0,
        AuthenticationMode::Plugin => socks5.users.len() == 0,
        AuthenticationMode::UsernamePassword => socks5.users.len() == 1 && socks5.users[0].0.len()
            > 0 && socks5.users[0].1.len() > 0,
        AuthenticationMode::AccountService => false,
    }
}

/// What is stored is what is read back: accepting the stored form of a configuration gives that
/// configuration, whatever was in force before, as long as the fixed limits are the same. HTTP comes
/// back on the listener that it shares, and the capture pointed at it.
pub proof fn lawStoredConfigurationIsRestored(
    update: ConfigurationUpdate,
    socks5: Socks5View,
    http: HttpView,
    capture: CaptureView,
    account: AccountView,
    startServiceOnLaunch: bool,
    hosts: ParsedHosts,
    verdicts: ConfigurationVerdicts,
    current: Socks5View,
    currentHttp: HttpView,
    candidate: ConfigurationCandidate,
)
    requires
        isStoredForm(update, socks5, http, capture, account, startServiceOnLaunch),
        isStorable(socks5),
        parsedView(hosts.listen) == Some(socks5.host),
        http.port != 0,
        hosts.http is Some,
        account.remotePort != 0,
        hosts.remote is Some,
        verdicts.socks5 is None,
        verdicts.http is None,
        verdicts.httpWithUpstream is None,
        verdicts.processCapture is None,
        current.udpRemoteLimit == socks5.udpRemoteLimit,
        current.sessionHistoryLimit == socks5.sessionHistoryLimit,
    ensures
        updateError(update, hosts, verdicts, current) is None,
        isCandidate(candidate, update, socks5.host, current, currentHttp) ==> {
            &&& candidate.socks5@ == socks5
            &&& candidate.http@ == HttpView {
                enabled: true,
                host: socks5.host,
                port: socks5.port,
                ..http
            }
            &&& candidate.processCapture@ == CaptureView {
                proxyPort: socks5.port,
                proxyAddress: socks5.host.0,
                ..capture
            }
            &&& candidate.multiAccount@ == account
        },
{
    let authentication = requestedAuthentication(
        update.authenticationMode,
        optionalCredentials(update.credentials),
        current,
    );
    assert(authentication->users =~= socks5.users);
    assert(authentication->mode == socks5.mode);
    if isCandidate(candidate, update, socks5.host, current, currentHttp) {
        assert(candidate.socks5.timeouts == socks5.timeouts);
        assert(candidate.socks5@.users =~= socks5.users);
        assert(updatedUpstream(update.upstreamProxy, currentHttp.upstream) == http.upstream);
    }
}

// ---------------------------------------------------------------------------
// Recording preferences
// ---------------------------------------------------------------------------

/// Whether recording runs.
#[derive(Clone, Copy, Debug, PartialEq, Eq, Structural)]
pub enum RecordingState {
    Recording,
    Paused,
}

/// The stored recording preferences over locations of type `L`.
#[derive(Debug)]
pub struct PersistedRecordingConfiguration<L> {
    pub state: RecordingState,
    pub ignoreLocations: Vec<L>,
    pub recordTunnelMetadata: bool,
}

impl<L> PersistedRecordingConfiguration<L> {
    /// The preferences to begin with: recording runs, nothing is left out and tunnels are noted.
    pub fn initial() -> (result: PersistedRecordingConfiguration<L>)
        ensures
            result.state == RecordingState::Recording,
            result.ignoreLocations@.len() == 0,
            result.recordTunnelMetadata,
    {
        PersistedRecordingConfiguration {
            state: RecordingState::Recording,
            ignoreLocations: Vec::new(),
            recordTunnelMetadata: true,
        }
    }
}

/// A partial change of the recording preferences.
#[derive(Debug)]
pub struct RecordingSettingsUpdate<L> {
    pub state: Option<RecordingState>,
    pub ignoreLocations: Option<Vec<L>>,
    pub recordTunnelMetadata: Option<bool>,
    pub hasLimits: bool,
}

/// The first objection to a location.
pub open spec fn firstObjection(objections: Seq<Option<String>>) -> Option<Seq<char>>
    decreases objections.len(),
{
    if objections.len() == 0 {
        None
    } else {
        match objections[0] {
            Some(detail) => Some(detail@),
            None => firstObjection(objections.drop_first()),
        }
    }
}

/// Checks a change of the recording preferences before it is stored: limits can no longer be set,
/// and every location must be valid. `objections` holds, for each location, what is wrong with it.
pub fn validateRecordingSettings(hasLimits: bool, objections: &Vec<Option<String>>) -> (result:
    Result<(), ApiError>)
    ensures
        match result {
            Ok(_) => !hasLimits && firstObjection(objections@) is None,
            Err(error) => error@ == if hasLimits {
                plainError(400, ErrorCode::InvalidRecordingLimits)
            } else {
                detailedError(
                    400,
                    ErrorCode::InvalidRecordingLocation,
                    firstObjection(objections@)->0,
                )
            } && (hasLimits || firstObjection(objections@) is Some),
        },
{
    if hasLimits {
        return Err(ApiError::badRequest(ErrorCode::InvalidRecordingLimits));
    }
    let mut i: usize = 0;
    assert(objections@.skip(0) == objections@);
    while i < objections.len()
        invariant
            i <= objections.len(),
            !hasLimits,
            firstObjection(objections@) == firstObjection(objections@.skip(i as int)),
        decreases objections.len() - i,
    {
        assert(objections@.skip(i as int).drop_first() == objections@.skip(i + 1));
        if let Some(detail) = &objections[i] {
            return Err(
                ApiError::badRequest(ErrorCode::InvalidRecordingLocation).withDetail(
                    copyText(detail.as_str()),
                ),
            );
        }
        i += 1;
    }
    Ok(())
}

/// Applies a partial change; what it does not name stays.
pub fn mergeRecordingSettings<L>(
    current: PersistedRecordingConfiguration<L>,
    update: RecordingSettingsUpdate<L>,
) -> (result: PersistedRecordingConfiguration<L>)
    ensures
        result.state == match update.state {
            Some(state) => state,
            None => current.state,
        },
        result.ignoreLocations@ == match update.ignoreLocations {
            Some(locations) => locations@,
            None => current.ignoreLocations@,
        },
        result.recordTunnelMetadata == match update.recordTunnelMetadata {
            Some(record) => record,
            None => current.recordTunnelMetadata,
        },
{
    PersistedRecordingConfiguration {
        state: match update.state {
            Some(state) => state,
            None => current.state,
        },
        ignoreLocations: match update.ignoreLocations {
            Some(locations) => locations,
            None => current.ignoreLocations,
        },
        recordTunnelMetadata: match update.recordTunnelMetadata {
            Some(record) => record,
            None => current.recordTunnelMetadata,
        },
    }
}

// ---------------------------------------------------------------------------
// Transaction pages
// ---------------------------------------------------------------------------

/// The largest page of recorded transactions.
pub const maximumTransactionPageSize: u64 = 1_000;

/// The page size where a client asks for none.
pub const defaultTransactionPageSize: u64 = 200;

/// How many transactions a snapshot shows.
pub const snapshotTransactionLimit: u64 = 500;

/// The longest collection token, in bytes.
pub const maximumCollectionTokenBytes: usize = 128;

/// The page size that a query asks for.
pub open spec fn requestedLimit(limit: Option<u64>) -> u64 {
    match limit {
        Some(size) => size,
        None => defaultTransactionPageSize,
    }
}

/// Whether a page query can be answered: its size is within bounds, and any page but the first
/// names the collection that it belongs to.
pub open spec fn isPageQuery(
    offset: Option<u64>,
    limit: Option<u64>,
    collectionToken: Option<String>,
) -> bool {
    &&& 0 < requestedLimit(limit) <= maximumTransactionPageSize
    &&& offset matches Some(first) ==> first == 0 || collectionToken is Some
    &&& collectionToken matches Some(token) ==> crate::text::byteLength(token@)
        <= maximumCollectionTokenBytes
}

/// Checks a page query and gives its page size.
pub fn validateTransactionQuery(
    offset: Option<u64>,
    limit: Option<u64>,
    collectionToken: &Option<String>,
) -> (result: Result<u64, ApiError>)
    ensures
        match result {
            Ok(size) => isPageQuery(offset, limit, *collectionToken) && size == requestedLimit(
                limit,
            ),
            Err(error) => !isPageQuery(offset, limit, *collectionToken) && error@ == plainError(
                400,
                ErrorCode::InvalidTransactionsQuery,
            ),
        },
{
    let size = match limit {
        Some(size) => size,
        None => defaultTransactionPageSize,
    };
    let laterPage = match offset {
        Some(first) => first > 0,
        None => false,
    };
    let tokenTooLong = match collectionToken {
        Some(token) => crate::text::byteLen(token.as_str()) > maximumCollectionTokenBytes,
        None => false,
    };
    if size == 0 || size > maximumTransactionPageSize || (laterPage && collectionToken.is_none())
        || tokenTooLong {
        return Err(ApiError::badRequest(ErrorCode::InvalidTransactionsQuery));
    }
    Ok(size)
}

/// Checks that a page lies within its collection.
pub fn validateTransactionOffset(offset: u64, total: u64) -> (result: Result<(), ApiError>)
    ensures
        match result {
            Ok(_) => offset <= total,
            Err(error) => offset > total && error@ == plainError(
                400,
                ErrorCode::InvalidTransactionsQuery,
            ),
        },
{
    if offset > total {
        Err(ApiError::badRequest(ErrorCode::InvalidTransactionsQuery))
    } else {
        Ok(())
    }
}

// ---------------------------------------------------------------------------
// Rule service resolution
// ---------------------------------------------------------------------------

/// The name under which packaged clients fetch their rules.
pub open spec fn isRuleServiceHost(host: Seq<char>) -> bool {
    crate::text::asciiLowered(host) == crate::text::asciiLowered(clientRulesHost@)
}

/// The address of a host that is answered locally: the rule service under its reserved name, else
/// whatever the DNS tool says.
pub fn resolveIp(
    host: &str,
    ruleService: Option<IpAddress>,
    spoofed: Option<IpAddress>,
) -> (result: Option<IpAddress>)
    ensures
        result == if isRuleServiceHost(host@) { ruleService } else { spoofed },
{
    if crate::text::equalIgnoringAsciiCase(host, clientRulesHost) {
        ruleService
    } else {
        spoofed
    }
}

/// An update that is accepted is what takes effect: the service listens where it says, with its limits, its
/// timeouts and its accounts, and the proxy for the web shares the listener. What an update cannot say stays.
pub proof fn lawAcceptedUpdateTakesEffect(
    candidate: ConfigurationCandidate,
    update: ConfigurationUpdate,
    host: (IpAddress, Seq<char>),
    current: Socks5View,
    currentHttp: HttpView,
)
    requires
        isCandidate(candidate, update, host, current, currentHttp),
    ensures
        ({
            let socks5 = candidate.socks5@;
            let http = candidate.http@;
            &&& socks5.host == host && socks5.port == update.listenPort
            &&& http.host == host && http.port == update.listenPort && http.enabled
            &&& socks5.limits == update.limits && http.limits == update.httpProxy.limits
            &&& socks5.udpBindHost == update.udpBindHost@
            &&& socks5.udpRemoteLimit == current.udpRemoteLimit
            &&& socks5.sessionHistoryLimit == current.sessionHistoryLimit
            &&& update.timeouts.connect == TimeoutInput::Milliseconds(socks5.timeouts.connect)
            &&& update.timeouts.bind == TimeoutInput::Milliseconds(socks5.timeouts.bind)
            &&& update.timeouts.idle == TimeoutInput::Milliseconds(socks5.timeouts.idle)
            &&& update.timeouts.shutdown == TimeoutInput::Milliseconds(socks5.timeouts.shutdown)
            &&& update.timeouts.read == TimeoutInput::Milliseconds(socks5.timeouts.read)
            &&& http.upstream.enabled == update.upstreamProxy.enabled
            &&& http.upstream.protocol == update.upstreamProxy.protocol@
            &&& http.upstream.host == update.upstreamProxy.host@
            &&& http.upstream.port == update.upstreamProxy.port
            &&& http.upstream.username == update.upstreamProxy.username@
            &&& update.upstreamProxy.password is None ==> http.upstream.password
                == currentHttp.upstream.password
            &&& update.upstreamProxy.password matches Some(password) ==> http.upstream.password
                == password@
            &&& candidate.processCapture@.enabled == update.processCapture@.enabled
            &&& candidate.processCapture@.processIds == update.processCapture@.processIds
            &&& candidate.processCapture@.proxyPort == update.listenPort
            &&& candidate.processCapture@.proxyAddress == host.0
            &&& candidate.multiAccount@ == update.multiAccount@
        }),
{
}

/// The accounts follow the mode: without authentication, or with that of a plugin, there are none and none may
/// be sent; with passwords those that are sent, whole, else those that were in force.
pub proof fn lawAccountsFollowTheMode(
    credentials: Option<(Seq<char>, Seq<char>)>,
    current: Socks5View,
)
    ensures
        credentials is None ==> requestedAuthentication(
            PublicAuthenticationMode::Open,
            credentials,
            current,
        ) == (AuthenticationView::Accepted {
            mode: AuthenticationMode::NoAuth,
            users: Seq::empty(),
        }),
        credentials is None ==> requestedAuthentication(
            PublicAuthenticationMode::Plugin,
            credentials,
            current,
        ) == (AuthenticationView::Accepted {
            mode: AuthenticationMode::Plugin,
            users: Seq::empty(),
        }),
        credentials is Some ==> requestedAuthentication(
            PublicAuthenticationMode::Open,
            credentials,
            current,
        ) == AuthenticationView::Refused(ErrorCode::CredentialsForbiddenWithoutAuthentication),
        credentials is Some ==> requestedAuthentication(
            PublicAuthenticationMode::Plugin,
            credentials,
            current,
        ) == AuthenticationView::Refused(ErrorCode::CredentialsForbiddenWithoutAuthentication),
        credentials matches Some(account) ==> requestedAuthentication(
            PublicAuthenticationMode::Password,
            credentials,
            current,
        ) == if account.0.len() > 0 && account.1.len() > 0 {
            AuthenticationView::Accepted {
                mode: AuthenticationMode::UsernamePassword,
                users: seq![account],
            }
        } else {
            AuthenticationView::Refused(ErrorCode::CredentialsRequired)
        },
        credentials is None ==> requestedAuthentication(
            PublicAuthenticationMode::Password,
            credentials,
            current,
        ) == if current.mode == AuthenticationMode::UsernamePassword && current.users.len() > 0 {
            AuthenticationView::Accepted {
                mode: AuthenticationMode::UsernamePassword,
                users: current.users,
            }
        } else {
            AuthenticationView::Refused(ErrorCode::CredentialsRequired)
        },
{
}

/// An update is accepted exactly where every part of it is: its ports, its addresses, its accounts, its timeouts
/// and what the parts of the proxy themselves have to say.
pub proof fn lawUpdateIsAcceptedByItsParts(
    update: ConfigurationUpdate,
    hosts: ParsedHosts,
    verdicts: ConfigurationVerdicts,
    current: Socks5View,
)
    ensures
        updateError(update, hosts, verdicts, current) is None <==> {
            &&& update.listenPort != 0 && hosts.listen is Some
            &&& requestedAuthentication(
                update.authenticationMode,
                optionalCredentials(update.credentials),
                current,
            ) is Accepted
            &&& update.timeouts.connect is Milliseconds && update.timeouts.bind is Milliseconds
            &&& update.timeouts.idle is Milliseconds && update.timeouts.shutdown is Milliseconds
            &&& update.timeouts.read is Milliseconds
            &&& verdicts.socks5 is None && verdicts.http is None
            &&& verdicts.httpWithUpstream is None && verdicts.processCapture is None
            &&& update.httpProxy@.listenPort != 0 && hosts.http is Some
            &&& update.multiAccount.remotePort != 0 && hosts.remote is Some
        },
        updateError(update, hosts, verdicts, current) matches Some(error) ==> error.status == 400,
        update.listenPort == 0 ==> updateError(update, hosts, verdicts, current) == Some(
            plainError(400, ErrorCode::InvalidListenPort),
        ),
        update.listenPort != 0 && hosts.listen is None ==> updateError(
            update,
            hosts,
            verdicts,
            current,
        ) == Some(plainError(400, ErrorCode::InvalidListenHost)),
{
}

/// A timeout that cannot be used is told by its own name and for its own reason.
pub proof fn lawTimeoutIsToldByName(fieldName: Seq<char>, input: TimeoutInput, inputs: TimeoutInputs)
    ensures
        timeoutError(fieldName, input) is None <==> input is Milliseconds,
        input is NotPositiveFinite ==> timeoutError(fieldName, input) == Some(
            errorWith(
                plainError(400, ErrorCode::TimeoutMustBePositiveFinite),
                "fieldName"@,
                fieldName,
            ),
        ),
        input is OutOfRange ==> timeoutError(fieldName, input) == Some(
            errorWith(plainError(400, ErrorCode::TimeoutOutOfRange), "fieldName"@, fieldName),
        ),
        input is BelowMillisecond ==> timeoutError(fieldName, input) == Some(
            errorWith(plainError(400, ErrorCode::TimeoutBelowMillisecond), "fieldName"@, fieldName),
        ),
        inputs.connect is OutOfRange ==> timeoutsError(inputs) == timeoutError(
            "connectTimeout"@,
            inputs.connect,
        ),
        inputs.connect is Milliseconds && inputs.bind is OutOfRange ==> timeoutsError(inputs)
            == timeoutError("bindTimeout"@, inputs.bind),
        inputs.connect is Milliseconds && inputs.bind is Milliseconds && inputs.idle is OutOfRange
            ==> timeoutsError(inputs) == timeoutError("idleTimeout"@, inputs.idle),
        inputs.connect is Milliseconds && inputs.bind is Milliseconds && inputs.idle is Milliseconds
            && inputs.shutdown is OutOfRange ==> timeoutsError(inputs) == timeoutError(
            "shutdownTimeout"@,
            inputs.shutdown,
        ),
        inputs.connect is Milliseconds && inputs.bind is Milliseconds && inputs.idle is Milliseconds
            && inputs.shutdown is Milliseconds ==> timeoutsError(inputs) == timeoutError(
            "readTimeout"@,
            inputs.read,
        ),
{
}

/// What clients see of the accounts is their names and the mode, in the words of clients; never a password.
pub proof fn lawClientsSeeNamesAlone(users: Seq<(Seq<char>, Seq<char>)>, i: int, http: HttpView)
    requires
        0 <= i < users.len(),
    ensures
        usernames(users).len() == users.len(),
        usernames(users)[i] == users[i].0,
        publicMode(AuthenticationMode::NoAuth) == PublicAuthenticationMode::Open,
        publicMode(AuthenticationMode::UsernamePassword) == PublicAuthenticationMode::Password,
        publicMode(AuthenticationMode::Plugin) == PublicAuthenticationMode::Plugin,
        publicMode(AuthenticationMode::AccountService) == PublicAuthenticationMode::Password,
        publicHttp(http).listenHost == http.host.1 && publicHttp(http).listenPort == http.port,
        publicHttp(http).enabled == http.enabled && publicHttp(http).limits == http.limits,
{
}

/// A stored configuration says everything that an update can: restored or sent, it means the same.
pub proof fn lawStoredFormSaysEverything(
    update: ConfigurationUpdate,
    socks5: Socks5View,
    http: HttpView,
    capture: CaptureView,
    account: AccountView,
    startServiceOnLaunch: bool,
)
    requires
        isStoredForm(update, socks5, http, capture, account, startServiceOnLaunch),
    ensures
        update.startServiceOnLaunch == startServiceOnLaunch,
        update.listenHost@ == socks5.host.1 && update.listenPort == socks5.port,
        update.limits == socks5.limits && update.udpBindHost@ == socks5.udpBindHost,
        update.timeouts.connect == TimeoutInput::Milliseconds(socks5.timeouts.connect),
        update.timeouts.bind == TimeoutInput::Milliseconds(socks5.timeouts.bind),
        update.timeouts.idle == TimeoutInput::Milliseconds(socks5.timeouts.idle),
        update.timeouts.shutdown == TimeoutInput::Milliseconds(socks5.timeouts.shutdown),
        update.timeouts.read == TimeoutInput::Milliseconds(socks5.timeouts.read),
        socks5.users.len() > 0 ==> optionalCredentials(update.credentials) == Some(socks5.users[0]),
        update.upstreamProxy.password is Some && update.upstreamProxy.password->0@
            == http.upstream.password,
        update.upstreamProxy.host@ == http.upstream.host,
        update.processCapture@ == capture && update.multiAccount@ == account,
{
}

/// The first location that is objected to is the one that is told.
pub proof fn lawFirstObjectionIsTold(objections: Seq<Option<String>>, i: int)
    requires
        0 <= i < objections.len(),
        objections[i] is Some,
        forall|k: int| 0 <= k < i ==> (#[trigger] objections[k]) is None,
    ensures
        firstObjection(objections) == Some(objections[i]->0@),
    decreases objections.len(),
{
    if i > 0 {
        let rest = objections.drop_first();
        assert(objections[0] is None);
        assert(rest[i - 1] == objections[i]);
        assert forall|k: int| 0 <= k < i - 1 implies (#[trigger] rest[k]) is None by {
            assert(rest[k] == objections[k + 1]);
        }
        lawFirstObjectionIsTold(rest, i - 1);
    }
}

/// A page has as many transactions as asked for, two hundred where nothing was said and a thousand at most; a
/// later page must say which collection it belongs to.
pub proof fn lawPageKeepsItsBounds(offset: Option<u64>, limit: Option<u64>, token: Option<String>)
    ensures
        requestedLimit(None) == 200,
        limit matches Some(size) ==> requestedLimit(limit) == size,
        isPageQuery(None, None, None),
        isPageQuery(offset, limit, token) <==> (limit is None || 1 <= limit->0 <= 1000) && (
        offset is None || offset->0 == 0 || token is Some) && (token is None
            || crate::text::byteLength(token->0@) <= 128),
{
}

/// The host of the client rules is known in any case, and no other is it.
pub proof fn lawRuleHostIsKnownInAnyCase(host: Seq<char>)
    ensures
        isRuleServiceHost(host) <==> crate::text::asciiLowered(host)
            == "client-rules.internal.invalid"@,
{
    reveal_strlit("client-rules.internal.invalid");
    assert(crate::text::asciiLowered("client-rules.internal.invalid"@)
        =~= "client-rules.internal.invalid"@);
}

/// Without a proxy before it the service goes out by itself: nothing is named and nothing is switched on.
pub proof fn lawNoUpstreamNamesNothing()
    ensures
        !noUpstream().enabled,
        noUpstream().protocol.len() == 0,
        noUpstream().host.len() == 0,
        noUpstream().port == 0,
        noUpstream().username.len() == 0,
        noUpstream().password.len() == 0,
{
}

} // verus!
