//! The supervisor of the account service process: what it publishes and what it believes.

use crate::controlApi::configuration::{publicAddressError, MultiAccountConfiguration};
use crate::controlApi::dataDirectory::{childPath, joinPath, PathStyle};
use crate::documents::{
    documentMember, findDocument, findInteger, findText, integerMember, textMember,
};
use crate::encoding::{base64UrlText, encodeBase64Url, isBase64UrlChar, randomBytes};
use crate::network::{isLoopback, loopbackV4, reachableLocally, Endpoint, IpAddress};
use crate::text::{
    concatText, copyOptional, copyText, equalText, optionalView, startsWith, startsWithText,
};
use vstd::prelude::*;

verus! {

/// The state of the account service; it is independent of the proxy's.
#[derive(Clone, Copy, Debug, PartialEq, Eq, Structural)]
pub enum AccountServiceState {
    Stopped,
    Starting,
    Running,
    Stopping,
    Faulted,
}

/// What the overview shows of the accounts.
#[derive(Clone, Copy, Debug, PartialEq, Eq, Structural)]
pub struct MultiAccountSummary {
    pub onlineAccounts: usize,
    pub activeConnections: usize,
    pub uploadBytesPerSecond: u64,
    pub downloadBytesPerSecond: u64,
}

/// The account service as clients see it. It has no place for a token or a whole key.
#[derive(Debug)]
pub struct MultiAccountPublicState {
    pub enabled: bool,
    pub remoteHost: String,
    pub remotePort: u16,
    pub state: AccountServiceState,
    pub apiKeyPrefix: Option<String>,
    pub apiKeyCreatedAt: Option<i64>,
    pub summary: Option<MultiAccountSummary>,
    pub error: Option<String>,
}

/// One instance of the account service; its parts come from the same handshake.
#[derive(Debug)]
pub struct AccountServiceEndpoint {
    pub internalEndpoint: String,
    pub internalToken: String,
    pub serviceInstanceId: String,
}

/// The mathematical value of an instance.
pub struct EndpointView {
    pub internalEndpoint: Seq<char>,
    pub internalToken: Seq<char>,
    pub serviceInstanceId: Seq<char>,
}

impl View for AccountServiceEndpoint {
    type V = EndpointView;

    open spec fn view(&self) -> EndpointView {
        EndpointView {
            internalEndpoint: self.internalEndpoint@,
            internalToken: self.internalToken@,
            serviceInstanceId: self.serviceInstanceId@,
        }
    }
}

impl AccountServiceEndpoint {
    /// An independent copy.
    pub fn copied(&self) -> (result: AccountServiceEndpoint)
        ensures
            result@ == self@,
    {
        AccountServiceEndpoint {
            internalEndpoint: copyText(self.internalEndpoint.as_str()),
            internalToken: copyText(self.internalToken.as_str()),
            serviceInstanceId: copyText(self.serviceInstanceId.as_str()),
        }
    }
}

/// A running process.
#[derive(Debug)]
pub struct RunningAccountService {
    pub endpoint: AccountServiceEndpoint,
    pub publicAddress: Endpoint,
}

/// What a look at the child process shows. The texts are those of the operating system.
#[derive(Debug)]
pub enum ChildStatus {
    Alive,
    Exited(String),
    Unreadable(String),
}

/// What the supervisor believes.
#[derive(Debug)]
pub struct AccountServiceSupervisor {
    pub state: AccountServiceState,
    pub running: Option<RunningAccountService>,
    pub apiKeyPrefix: Option<String>,
    pub apiKeyCreatedAt: Option<i64>,
    pub error: Option<String>,
}

/// The mathematical value of the supervisor.
pub struct SupervisorView {
    pub state: AccountServiceState,
    pub running: Option<(EndpointView, Endpoint)>,
    pub apiKeyPrefix: Option<Seq<char>>,
    pub apiKeyCreatedAt: Option<i64>,
    pub error: Option<Seq<char>>,
}

impl View for AccountServiceSupervisor {
    type V = SupervisorView;

    open spec fn view(&self) -> SupervisorView {
        SupervisorView {
            state: self.state,
            running: match self.running {
                Some(process) => Some((process.endpoint@, process.publicAddress)),
                None => None,
            },
            apiKeyPrefix: optionalView(self.apiKeyPrefix),
            apiKeyCreatedAt: self.apiKeyCreatedAt,
            error: optionalView(self.error),
        }
    }
}

/// The message of a process that ended on its own.
pub open spec fn exitMessage(status: Seq<char>) -> Seq<char> {
    "账号服务意外退出："@ + status
}

/// The message of a process whose status cannot be read.
pub open spec fn unreadableMessage(detail: Seq<char>) -> Seq<char> {
    "读取账号服务进程状态失败："@ + detail
}

/// The supervisor after its process ended on its own.
pub open spec fn afterExit(supervisor: SupervisorView, status: Seq<char>) -> SupervisorView {
    SupervisorView {
        state: AccountServiceState::Faulted,
        running: None,
        error: Some(exitMessage(status)),
        ..supervisor
    }
}

/// Why no process is reached, and what is left of it.
pub open spec fn unreachableProcess(
    before: SupervisorView,
    child: ChildStatus,
    detail: Seq<char>,
    after: SupervisorView,
) -> bool {
    if before.running is None {
        detail == "账号服务未运行"@ && after == before
    } else {
        match child {
            ChildStatus::Alive => false,
            ChildStatus::Exited(status) => detail == exitMessage(status@) && after == afterExit(
                before,
                status@,
            ),
            ChildStatus::Unreadable(reason) => detail == unreadableMessage(reason@) && after
                == before,
        }
    }
}

/// How starting the process ended.
#[derive(Debug)]
pub enum ProcessStart {
    /// The process, its handshake or its identity failed; the process is gone.
    Failed(String),
    /// The identity lacks the key prefix or its date; the process is taken down.
    IncompleteIdentity,
    Ready { process: RunningAccountService, apiKeyPrefix: String, apiKeyCreatedAt: i64 },
}

/// How a start ends once a process answers with its identity.
pub fn identifyProcess(process: RunningAccountService, identity: &str) -> (result: ProcessStart)
    ensures
        match (
            textMember(identity@, "apiKeyPrefix"@),
            integerMember(identity@, "apiKeyCreatedAt"@),
        ) {
            (Some(prefix), Some(createdAt)) => result matches ProcessStart::Ready {
                process: ready,
                apiKeyPrefix,
                apiKeyCreatedAt,
            } && ready == process && apiKeyPrefix@ == prefix && apiKeyCreatedAt == createdAt,
            _ => result is IncompleteIdentity,
        },
{
    readyProcess(
        process,
        findText(identity, "apiKeyPrefix"),
        findInteger(identity, "apiKeyCreatedAt"),
    )
}

/// How a start ends once a process answers: both parts of its identity are needed.
pub fn readyProcess(
    process: RunningAccountService,
    apiKeyPrefix: Option<String>,
    apiKeyCreatedAt: Option<i64>,
) -> (result: ProcessStart)
    ensures
        match (apiKeyPrefix, apiKeyCreatedAt) {
            (Some(prefix), Some(createdAt)) => result == (ProcessStart::Ready {
                process,
                apiKeyPrefix: prefix,
                apiKeyCreatedAt: createdAt,
            }),
            _ => result is IncompleteIdentity,
        },
{
    match (apiKeyPrefix, apiKeyCreatedAt) {
        (Some(prefix), Some(createdAt)) => ProcessStart::Ready {
            process,
            apiKeyPrefix: prefix,
            apiKeyCreatedAt: createdAt,
        },
        _ => ProcessStart::IncompleteIdentity,
    }
}

/// What a start has to do.
#[derive(Debug)]
pub enum StartPlan {
    /// The process is already there.
    AlreadyRunning(AccountServiceEndpoint),
    /// A process has to be created.
    Launch,
}

/// How waiting for the process to end went.
#[derive(Debug)]
pub enum ProcessEnd {
    /// It ended; `success` is whether its status is the good one.
    Exited { success: bool, status: String },
    WaitFailed(String),
    /// It did not end in time; `killError` is why it could not be killed either.
    TimedOut { killError: Option<String> },
}

/// The public address to start on: the configured one, or any local port while the remote entry
/// is off.
pub fn startAddress(configuration: &MultiAccountConfiguration, parsedHost: Option<IpAddress>) -> (result:
    Result<Endpoint, String>)
    ensures
        if configuration.enabled {
            match result {
                Ok(endpoint) => publicAddressError(configuration.remotePort, parsedHost) is None
                    && parsedHost == Some(endpoint.address) && endpoint.port
                    == configuration.remotePort,
                Err(detail) => publicAddressError(configuration.remotePort, parsedHost) == Some(
                    detail@,
                ),
            }
        } else {
            result matches Ok(endpoint) && endpoint == (Endpoint {
                address: IpAddress::V4(loopbackV4),
                port: 0,
            })
        },
{
    if configuration.enabled {
        configuration.publicAddress(parsedHost)
    } else {
        Ok(Endpoint { address: IpAddress::V4(loopbackV4), port: 0 })
    }
}

/// The message of an identity without its fields.
pub open spec fn incompleteIdentityMessage() -> Seq<char> {
    "账号服务管理身份响应缺少必要字段"@
}

/// How a stop ended.
pub open spec fn stopResult(commandSent: bool, end: ProcessEnd) -> Option<Seq<char>> {
    match end {
        ProcessEnd::Exited { success, status } => if commandSent && success {
            None
        } else {
            Some("账号服务关闭状态异常："@ + status@)
        },
        ProcessEnd::WaitFailed(detail) => Some("等待账号服务关闭失败："@ + detail@),
        ProcessEnd::TimedOut { killError } => match killError {
            Some(detail) => Some("强制结束账号服务失败："@ + detail@),
            None => Some("账号服务有序关闭超时，已强制结束"@),
        },
    }
}

impl AccountServiceSupervisor {
    /// What holds between operations: the service is running exactly while there is a process.
    pub open spec fn wf(&self) -> bool {
        self.state == AccountServiceState::Running <==> self.running is Some
    }

    /// A supervisor without a process.
    pub fn new() -> (result: AccountServiceSupervisor)
        ensures
            result.wf(),
            result@ == (SupervisorView {
                state: AccountServiceState::Stopped,
                running: None,
                apiKeyPrefix: None,
                apiKeyCreatedAt: None,
                error: None,
            }),
    {
        AccountServiceSupervisor {
            state: AccountServiceState::Stopped,
            running: None,
            apiKeyPrefix: None,
            apiKeyCreatedAt: None,
            error: None,
        }
    }

    /// Begins a start. A living process is used again; a dead one is forgotten first. The status
    /// only matters where there is a process.
    pub fn beginStart(&mut self, child: ChildStatus) -> (result: Result<StartPlan, String>)
        ensures
            match result {
                Ok(StartPlan::AlreadyRunning(endpoint)) => {
                    &&& old(self).running is Some
                    &&& child is Alive
                    &&& endpoint@ == old(self)@.running->Some_0.0
                    &&& final(self)@ == old(self)@
                },
                Ok(StartPlan::Launch) => {
                    &&& old(self).running is None || child is Exited
                    &&& final(self)@ == (SupervisorView {
                        state: AccountServiceState::Starting,
                        running: None,
                        error: None,
                        ..old(self)@
                    })
                },
                Err(detail) => {
                    &&& old(self).running is Some
                    &&& child matches ChildStatus::Unreadable(reason) && detail@
                        == unreadableMessage(reason@)
                    &&& final(self)@ == old(self)@
                },
            },
    {
        if let Some(process) = &self.running {
            match child {
                ChildStatus::Alive => {
                    return Ok(StartPlan::AlreadyRunning(process.endpoint.copied()));
                },
                ChildStatus::Unreadable(detail) => {
                    return Err(concatText("读取账号服务进程状态失败：", detail.as_str()));
                },
                ChildStatus::Exited(_) => {},
            }
        }
        self.running = None;
        self.state = AccountServiceState::Starting;
        self.error = None;
        Ok(StartPlan::Launch)
    }

    /// Ends a start. Nothing half-initialised is ever published: the process, its key prefix and
    /// its date appear together or not at all.
    pub fn finishStart(&mut self, outcome: ProcessStart) -> (result: Result<
        AccountServiceEndpoint,
        String,
    >)
        requires
            old(self).state == AccountServiceState::Starting,
            old(self).running is None,
        ensures
            final(self).wf(),
            match outcome {
                ProcessStart::Ready { process, apiKeyPrefix, apiKeyCreatedAt } => {
                    &&& result matches Ok(endpoint) && endpoint@ == process.endpoint@
                    &&& final(self)@ == (SupervisorView {
                        state: AccountServiceState::Running,
                        running: Some((process.endpoint@, process.publicAddress)),
                        apiKeyPrefix: Some(apiKeyPrefix@),
                        apiKeyCreatedAt: Some(apiKeyCreatedAt),
                        ..old(self)@
                    })
                },
                ProcessStart::Failed(detail) => {
                    &&& result matches Err(error) && error@ == detail@
                    &&& final(self)@ == (SupervisorView {
                        state: AccountServiceState::Faulted,
                        error: Some(detail@),
                        ..old(self)@
                    })
                },
                ProcessStart::IncompleteIdentity => {
                    &&& result matches Err(error) && error@ == incompleteIdentityMessage()
                    &&& final(self)@ == (SupervisorView {
                        state: AccountServiceState::Faulted,
                        error: Some(incompleteIdentityMessage()),
                        ..old(self)@
                    })
                },
            },
    {
        match outcome {
            ProcessStart::Ready { process, apiKeyPrefix, apiKeyCreatedAt } => {
                let endpoint = process.endpoint.copied();
                self.running = Some(process);
                self.state = AccountServiceState::Running;
                self.apiKeyPrefix = Some(apiKeyPrefix);
                self.apiKeyCreatedAt = Some(apiKeyCreatedAt);
                Ok(endpoint)
            },
            ProcessStart::Failed(detail) => {
                self.state = AccountServiceState::Faulted;
                self.error = Some(copyText(detail.as_str()));
                Err(detail)
            },
            ProcessStart::IncompleteIdentity => {
                self.state = AccountServiceState::Faulted;
                self.error = Some(copyText("账号服务管理身份响应缺少必要字段"));
                Err(copyText("账号服务管理身份响应缺少必要字段"))
            },
        }
    }

    /// Begins a stop and tells whether there is a process to end. Without one the service is
    /// stopped at once.
    pub fn beginStop(&mut self) -> (result: bool)
        ensures
            result == (old(self).running is Some),
            final(self)@ == if result {
                SupervisorView {
                    state: AccountServiceState::Stopping,
                    running: None,
                    ..old(self)@
                }
            } else {
                SupervisorView { state: AccountServiceState::Stopped, error: None, ..old(self)@ }
            },
    {
        if self.running.is_none() {
            self.state = AccountServiceState::Stopped;
            self.error = None;
            return false;
        }
        self.running = None;
        self.state = AccountServiceState::Stopping;
        true
    }

    /// Ends a stop. Only an orderly end is a success. A process that could not be killed leaves
    /// the supervisor stopping, since it may still be there.
    pub fn finishStop(&mut self, commandSent: bool, end: ProcessEnd) -> (result: Result<(), String>)
        requires
            old(self).state == AccountServiceState::Stopping,
        ensures
            match result {
                Ok(_) => stopResult(commandSent, end) is None && final(self)@ == (SupervisorView {
                    state: AccountServiceState::Stopped,
                    error: None,
                    ..old(self)@
                }),
                Err(detail) => {
                    &&& stopResult(commandSent, end) == Some(detail@)
                    &&& if end matches ProcessEnd::TimedOut { killError } && killError is Some {
                        final(self)@ == old(self)@
                    } else {
                        final(self)@ == (SupervisorView {
                            state: AccountServiceState::Faulted,
                            error: Some(detail@),
                            ..old(self)@
                        })
                    }
                },
            },
    {
        let detail = match end {
            ProcessEnd::Exited { success, status } => {
                if commandSent && success {
                    self.state = AccountServiceState::Stopped;
                    self.error = None;
                    return Ok(());
                }
                concatText("账号服务关闭状态异常：", status.as_str())
            },
            ProcessEnd::WaitFailed(reason) => concatText(
                "等待账号服务关闭失败：",
                reason.as_str(),
            ),
            ProcessEnd::TimedOut { killError } => match killError {
                Some(reason) => {
                    return Err(concatText("强制结束账号服务失败：", reason.as_str()));
                },
                None => copyText("账号服务有序关闭超时，已强制结束"),
            },
        };
        self.state = AccountServiceState::Faulted;
        self.error = Some(copyText(detail.as_str()));
        Err(detail)
    }

    /// The current instance. A process that has ended is noticed here and never handed out.
    pub fn endpoint(&mut self, child: ChildStatus) -> (result: Result<
        AccountServiceEndpoint,
        String,
    >)
        ensures
            match result {
                Ok(endpoint) => {
                    &&& old(self).running is Some
                    &&& child is Alive
                    &&& endpoint@ == old(self)@.running->Some_0.0
                    &&& final(self)@ == old(self)@
                },
                Err(detail) => unreachableProcess(old(self)@, child, detail@, final(self)@),
            },
    {
        let current = match &self.running {
            None => {
                return Err(copyText("账号服务未运行"));
            },
            Some(process) => process.endpoint.copied(),
        };
        match child {
            ChildStatus::Alive => Ok(current),
            ChildStatus::Exited(status) => {
                self.running = None;
                self.state = AccountServiceState::Faulted;
                let detail = concatText("账号服务意外退出：", status.as_str());
                self.error = Some(copyText(detail.as_str()));
                Err(detail)
            },
            ChildStatus::Unreadable(reason) => Err(
                concatText("读取账号服务进程状态失败：", reason.as_str()),
            ),
        }
    }

    /// Where the public pages of a living process are reached from the machine itself. A process that
    /// has ended is noticed here too.
    pub fn mappedPublicEndpoint(&mut self, child: ChildStatus) -> (result: Result<Endpoint, String>)
        ensures
            match result {
                Ok(endpoint) => {
                    &&& old(self).running is Some
                    &&& child is Alive
                    &&& endpoint == (Endpoint {
                        address: reachableLocally(old(self)@.running->Some_0.1.address),
                        port: old(self)@.running->Some_0.1.port,
                    })
                    &&& final(self)@ == old(self)@
                },
                Err(detail) => unreachableProcess(old(self)@, child, detail@, final(self)@),
            },
    {
        match self.endpoint(child) {
            Ok(_) => {},
            Err(detail) => {
                return Err(detail);
            },
        }
        match &self.running {
            Some(process) => Ok(
                Endpoint {
                    address: process.publicAddress.address.local(),
                    port: process.publicAddress.port,
                },
            ),
            None => Err(copyText("账号服务未运行")),
        }
    }

    /// Takes note of the identity that an answer of the account service may bring along.
    pub fn updateIdentity(&mut self, document: &str)
        ensures
            final(self)@ == match documentMember(document@, "identity"@) {
                Some(identity) => SupervisorView {
                    apiKeyPrefix: textMember(identity, "apiKeyPrefix"@),
                    apiKeyCreatedAt: integerMember(identity, "apiKeyCreatedAt"@),
                    ..old(self)@
                },
                None => old(self)@,
            },
    {
        match findDocument(document, "identity") {
            Some(identity) => {
                let apiKeyPrefix = findText(identity.as_str(), "apiKeyPrefix");
                let apiKeyCreatedAt = findInteger(identity.as_str(), "apiKeyCreatedAt");
                self.takeIdentity(apiKeyPrefix, apiKeyCreatedAt);
            },
            None => {},
        }
    }

    /// Takes an identity over as it is.
    pub fn takeIdentity(&mut self, apiKeyPrefix: Option<String>, apiKeyCreatedAt: Option<i64>)
        ensures
            final(self)@ == (SupervisorView {
                apiKeyPrefix: optionalView(apiKeyPrefix),
                apiKeyCreatedAt,
                ..old(self)@
            }),
    {
        self.apiKeyPrefix = apiKeyPrefix;
        self.apiKeyCreatedAt = apiKeyCreatedAt;
    }

    /// The public state. A summary is only asked for while the service runs; its failure shows
    /// only where the service itself reports none.
    pub fn publicState(
        &self,
        configuration: &MultiAccountConfiguration,
        summary: Result<MultiAccountSummary, String>,
    ) -> (result: MultiAccountPublicState)
        ensures
            result.enabled == configuration.enabled,
            result.remoteHost@ == configuration.remoteHost@,
            result.remotePort == configuration.remotePort,
            result.state == self.state,
            optionalView(result.apiKeyPrefix) == self@.apiKeyPrefix,
            result.apiKeyCreatedAt == self.apiKeyCreatedAt,
            result.summary == if self.state == AccountServiceState::Running && summary is Ok {
                Some(summary->Ok_0)
            } else {
                None
            },
            optionalView(result.error) == if self.error is Some {
                self@.error
            } else if self.state == AccountServiceState::Running && summary is Err {
                Some(summary->Err_0@)
            } else {
                None
            },
    {
        let running = self.state == AccountServiceState::Running;
        let (shown, summaryError) = match summary {
            Ok(counts) => (
                if running {
                    Some(counts)
                } else {
                    None
                },
                None,
            ),
            Err(detail) => (
                None,
                if running {
                    Some(detail)
                } else {
                    None
                },
            ),
        };
        let error = match &self.error {
            Some(detail) => Some(copyText(detail.as_str())),
            None => summaryError,
        };
        MultiAccountPublicState {
            enabled: configuration.enabled,
            remoteHost: copyText(configuration.remoteHost.as_str()),
            remotePort: configuration.remotePort,
            state: self.state,
            apiKeyPrefix: copyOptional(&self.apiKeyPrefix),
            apiKeyCreatedAt: self.apiKeyCreatedAt,
            summary: shown,
            error,
        }
    }
}

/// Whether a management ticket points to the login entry.
pub open spec fn pointsToLogin(ticketPath: Seq<char>) -> bool {
    startsWith(ticketPath, "/api/v1/auth/local?ticket="@)
}

/// Checks the path of a management ticket, before anything else is asked of the service.
pub fn acceptTicket(ticketPath: &str) -> (result: Result<(), String>)
    ensures
        match result {
            Ok(_) => pointsToLogin(ticketPath@),
            Err(detail) => !pointsToLogin(ticketPath@) && detail@
                == "账号管理会话返回了非法入口路径"@,
        },
{
    if startsWithText(ticketPath, "/api/v1/auth/local?ticket=") {
        Ok(())
    } else {
        Err(copyText("账号管理会话返回了非法入口路径"))
    }
}

/// The path that a management ticket opens, under the mapped entry. The ticket must point to the
/// login entry, and the instance that issued it must still be the current one.
pub fn managementSessionPath(ticketPath: &str, issuedBy: &str, current: &str) -> (result: Result<
    String,
    String,
>)
    ensures
        if !pointsToLogin(ticketPath@) {
            result matches Err(detail) && detail@ == "账号管理会话返回了非法入口路径"@
        } else if current@ != issuedBy@ {
            result matches Err(detail) && detail@
                == "账号服务实例在会话签发期间发生变化"@
        } else {
            result matches Ok(path) && path@ == "/account-management"@ + ticketPath@
        },
{
    if let Err(detail) = acceptTicket(ticketPath) {
        return Err(detail);
    }
    if !equalText(current, issuedBy) {
        return Err(copyText("账号服务实例在会话签发期间发生变化"));
    }
    Ok(concatText("/account-management", ticketPath))
}

/// What the answer to a credential check means. `statusText` is the status as it reads.
pub fn credentialVerdict(status: u16, statusText: &str) -> (result: Result<bool, String>)
    ensures
        if status == 204 {
            result == Ok::<bool, String>(true)
        } else if status == 401 {
            result == Ok::<bool, String>(false)
        } else {
            result matches Err(detail) && detail@
                == "账号服务凭据校验返回异常状态：HTTP "@ + statusText@
        },
{
    if status == 204 {
        Ok(true)
    } else if status == 401 {
        Ok(false)
    } else {
        Err(concatText("账号服务凭据校验返回异常状态：HTTP ", statusText))
    }
}

/// What the answer to a question for the active rules means.
pub fn ruleSetVerdict(status: u16, statusText: &str) -> (result: Result<bool, String>)
    ensures
        if 200 <= status < 300 {
            result == Ok::<bool, String>(true)
        } else if status == 404 {
            result == Ok::<bool, String>(false)
        } else {
            result matches Err(detail) && detail@
                == "账号服务规则集预检返回异常状态：HTTP "@ + statusText@
        },
{
    if 200 <= status && status < 300 {
        Ok(true)
    } else if status == 404 {
        Ok(false)
    } else {
        Err(concatText("账号服务规则集预检返回异常状态：HTTP ", statusText))
    }
}

/// Whether a handshake answers this start: a fixed public port is kept, the internal endpoint
/// never leaves the machine, and the instance has a name.
pub fn isStartupEndpointValid(
    requestedPort: u16,
    publicPort: u16,
    internalAddress: IpAddress,
    serviceInstanceId: &str,
) -> (result: bool)
    ensures
        result == ((requestedPort == 0 || publicPort == requestedPort) && isLoopback(
            internalAddress,
        ) && serviceInstanceId@.len() > 0),
{
    (requestedPort == 0 || publicPort == requestedPort) && internalAddress.loopback()
        && !serviceInstanceId.is_empty()
}

/// Whether an instance needs the web pages: every one but that on a private local port.
pub fn needsWebAssets(address: Endpoint) -> (result: bool)
    ensures
        result == !(isLoopback(address.address) && address.port == 0),
{
    !(address.address.loopback() && address.port == 0)
}

/// Where the account service calls back: the configured address, which must not be empty, or the
/// default one.
pub fn resolveControlBaseUrl(configured: Option<String>) -> (result: Result<String, String>)
    ensures
        match configured {
            Some(value) => if value@.len() == 0 {
                result matches Err(detail) && detail@ == "本机控制地址不能为空"@
            } else {
                result matches Ok(url) && url@ == value@
            },
            None => result matches Ok(url) && url@ == "http://127.0.0.1:17890"@,
        },
{
    match configured {
        Some(value) => if value.as_str().is_empty() {
            Err(copyText("本机控制地址不能为空"))
        } else {
            Ok(value)
        },
        None => Ok(copyText("http://127.0.0.1:17890")),
    }
}

/// A token for one run of the account service: 256 random bits as URL-safe text.
pub fn randomInternalToken() -> (result: String)
    ensures
        result@.len() == 43,
        forall|i: int| 0 <= i < result@.len() ==> isBase64UrlChar(#[trigger] result@[i]),
        exists|bytes: Seq<u8>| bytes.len() == 32 && result@ == #[trigger] base64UrlText(bytes),
{
    let bytes = randomBytes();
    let token = encodeBase64Url(bytes.as_slice());
    assert(token@ == base64UrlText(bytes@));
    token
}

/// Whether a health answer comes from the instance that it was asked of.
pub fn healthBelongsTo(answered: &Option<String>, expected: &str) -> (result: bool)
    ensures
        result == (optionalView(*answered) == Some(expected@)),
{
    match answered {
        Some(instance) => equalText(instance.as_str(), expected),
        None => false,
    }
}

// ---------------------------------------------------------------------------
// Creating the process
// ---------------------------------------------------------------------------

pub const accountServiceExecutableOverride: &'static str = "CAPTURE_ACCOUNT_SERVICE_EXECUTABLE";

pub const webAssetsDirectoryOverride: &'static str = "CAPTURE_WEB_ASSETS_DIR";

pub const controlBaseUrlVariable: &'static str = "CAPTURE_CONTROL_BASE_URL";

pub const accountServiceDirectoryName: &'static str = "accountService";

pub const accountDatabaseFileName: &'static str = "accounts.db";

/// What is known of where the control process itself lies.
#[derive(Debug)]
pub enum OwnDirectory {
    /// The directory of its executable.
    Known(String),
    /// Its executable lies in no directory.
    Missing,
    /// Its executable cannot be found.
    Unknown(String),
}

/// The file name of the account service.
pub open spec fn accountServiceFileName(style: PathStyle) -> Seq<char> {
    match style {
        PathStyle::Windows => "accountService.exe"@,
        PathStyle::Unix => "accountService"@,
    }
}

/// Where the executable of the account service lies: where the environment says, else beside the
/// control process.
pub fn resolveAccountServiceExecutable(
    style: PathStyle,
    chosen: Option<String>,
    own: &OwnDirectory,
) -> (result: Result<String, String>)
    ensures
        match (chosen, *own) {
            (Some(path), _) => result matches Ok(found) && found@ == path@,
            (None, OwnDirectory::Known(directory)) => result matches Ok(found) && found@
                == childPath(style, directory@, accountServiceFileName(style)),
            (None, OwnDirectory::Missing) => result matches Err(detail) && detail@
                == "代理服务可执行文件没有父目录"@,
            (None, OwnDirectory::Unknown(cause)) => result matches Err(detail) && detail@
                == "定位代理服务可执行文件失败："@ + cause@,
        },
{
    match chosen {
        Some(path) => return Ok(path),
        None => {},
    }
    match own {
        OwnDirectory::Known(directory) => match style {
            PathStyle::Windows => Ok(
                joinPath(style, directory.as_str(), "accountService.exe"),
            ),
            PathStyle::Unix => Ok(joinPath(style, directory.as_str(), "accountService")),
        },
        OwnDirectory::Missing => Err(copyText("代理服务可执行文件没有父目录")),
        OwnDirectory::Unknown(cause) => Err(
            concatText("定位代理服务可执行文件失败：", cause.as_str()),
        ),
    }
}

/// Where the web pages are looked for: where the environment says, else beside the control process.
pub fn locateWebAssets(style: PathStyle, chosen: Option<String>, own: &OwnDirectory) -> (result: Result<
    String,
    String,
>)
    ensures
        match (chosen, *own) {
            (Some(path), _) => result matches Ok(found) && found@ == path@,
            (None, OwnDirectory::Known(directory)) => result matches Ok(found) && found@
                == childPath(style, directory@, "web"@),
            (None, OwnDirectory::Missing) => result matches Err(detail) && detail@
                == "代理服务可执行文件没有父目录"@,
            (None, OwnDirectory::Unknown(cause)) => result matches Err(detail) && detail@
                == "定位远程 Web 资源失败："@ + cause@,
        },
{
    match chosen {
        Some(path) => return Ok(path),
        None => {},
    }
    match own {
        OwnDirectory::Known(directory) => Ok(joinPath(style, directory.as_str(), "web")),
        OwnDirectory::Missing => Err(copyText("代理服务可执行文件没有父目录")),
        OwnDirectory::Unknown(cause) => Err(
            concatText("定位远程 Web 资源失败：", cause.as_str()),
        ),
    }
}

/// The directory of the web pages, where it is a directory with a first page.
pub fn resolveWebAssetsDirectory(directory: String, isDirectory: bool, hasIndex: bool) -> (result:
    Result<String, String>)
    ensures
        match result {
            Ok(found) => isDirectory && hasIndex && found@ == directory@,
            Err(detail) => !(isDirectory && hasIndex) && detail@
                == "远程 Web 资源目录无效："@ + directory@,
        },
{
    if isDirectory && hasIndex {
        Ok(directory)
    } else {
        Err(concatText("远程 Web 资源目录无效：", directory.as_str()))
    }
}

/// Where creating the process may fail, in the order in which it is tried.
#[derive(Clone, Copy, Debug, PartialEq, Eq, Structural)]
pub enum LaunchStage {
    CreateDirectory,
    Spawn,
    OpenInput,
    OpenOutput,
    EncodeRequest,
    SendRequest,
    FlushRequest,
    HandshakeTimeout,
    ReadHandshake,
    MissingHandshake,
    DecodeHandshake,
    ForeignEndpoint,
}

/// What a failed stage says in front of its cause. Some have no cause to add.
pub open spec fn launchMessage(stage: LaunchStage, cause: Seq<char>) -> Seq<char> {
    match stage {
        LaunchStage::CreateDirectory => "创建账号数据库目录失败："@ + cause,
        LaunchStage::Spawn => "启动账号服务失败："@ + cause,
        LaunchStage::OpenInput => "账号服务标准输入管道不可用"@,
        LaunchStage::OpenOutput => "账号服务标准输出管道不可用"@,
        LaunchStage::EncodeRequest => "编码账号服务启动配置失败："@ + cause,
        LaunchStage::SendRequest => "发送账号服务启动配置失败："@ + cause,
        LaunchStage::FlushRequest => "刷新账号服务启动管道失败："@ + cause,
        LaunchStage::HandshakeTimeout => "等待账号服务启动握手超时"@,
        LaunchStage::ReadHandshake => "读取账号服务启动握手失败："@ + cause,
        LaunchStage::MissingHandshake => "账号服务未返回启动握手"@,
        LaunchStage::DecodeHandshake => "账号服务启动握手无效："@ + cause,
        LaunchStage::ForeignEndpoint => "账号服务启动握手端点不符合配置"@,
    }
}

/// What a failed stage says.
pub fn startProcessFailure(stage: LaunchStage, cause: &str) -> (result: String)
    ensures
        result@ == launchMessage(stage, cause@),
{
    match stage {
        LaunchStage::CreateDirectory => concatText("创建账号数据库目录失败：", cause),
        LaunchStage::Spawn => concatText("启动账号服务失败：", cause),
        LaunchStage::OpenInput => copyText("账号服务标准输入管道不可用"),
        LaunchStage::OpenOutput => copyText("账号服务标准输出管道不可用"),
        LaunchStage::EncodeRequest => concatText("编码账号服务启动配置失败：", cause),
        LaunchStage::SendRequest => concatText("发送账号服务启动配置失败：", cause),
        LaunchStage::FlushRequest => concatText("刷新账号服务启动管道失败：", cause),
        LaunchStage::HandshakeTimeout => copyText("等待账号服务启动握手超时"),
        LaunchStage::ReadHandshake => concatText("读取账号服务启动握手失败：", cause),
        LaunchStage::MissingHandshake => copyText("账号服务未返回启动握手"),
        LaunchStage::DecodeHandshake => concatText("账号服务启动握手无效：", cause),
        LaunchStage::ForeignEndpoint => copyText("账号服务启动握手端点不符合配置"),
    }
}

// ---------------------------------------------------------------------------
// Answers
// ---------------------------------------------------------------------------

/// An answer of the account service: its status, as a number and as it reads, and its document or why
/// that cannot be read.
#[derive(Debug)]
pub struct InternalAnswer {
    pub status: u16,
    pub statusText: String,
    pub document: Result<String, String>,
}

/// Whether a status stands for success.
pub open spec fn isSuccess(status: u16) -> bool {
    200 <= status < 300
}

/// What goes wrong with an answer, in front of its cause.
#[derive(Clone, Copy, Debug, PartialEq, Eq, Structural)]
pub enum AnswerPurpose {
    Health,
    Identity,
    Session,
}

/// What an unreachable service says.
pub open spec fn unreachableLabel(purpose: AnswerPurpose) -> Seq<char> {
    match purpose {
        AnswerPurpose::Health => "账号服务健康检查失败："@,
        AnswerPurpose::Identity => "读取账号服务管理身份失败："@,
        AnswerPurpose::Session => "签发账号管理会话失败："@,
    }
}

/// What an answer without success says.
pub open spec fn refusedLabel(purpose: AnswerPurpose) -> Seq<char> {
    match purpose {
        AnswerPurpose::Health => "账号服务健康检查返回 HTTP "@,
        AnswerPurpose::Identity => "读取账号服务管理身份返回 HTTP "@,
        AnswerPurpose::Session => "账号服务拒绝签发管理会话：HTTP "@,
    }
}

/// What an unreadable answer says.
pub open spec fn unreadableLabel(purpose: AnswerPurpose) -> Seq<char> {
    match purpose {
        AnswerPurpose::Health => "账号服务健康响应无效："@,
        AnswerPurpose::Identity => "账号服务管理身份响应无效："@,
        AnswerPurpose::Session => "账号管理会话响应无效："@,
    }
}

/// The document of an answer, or why there is none: the status is looked at before the document.
pub open spec fn answerFailure(
    purpose: AnswerPurpose,
    answer: Result<InternalAnswer, String>,
) -> Option<Seq<char>> {
    match answer {
        Err(cause) => Some(unreachableLabel(purpose) + cause@),
        Ok(answered) => if !isSuccess(answered.status) {
            Some(refusedLabel(purpose) + answered.statusText@)
        } else {
            match answered.document {
                Ok(_) => None,
                Err(cause) => Some(unreadableLabel(purpose) + cause@),
            }
        },
    }
}

/// The document of an answer, or why there is none.
pub fn readAnswer(purpose: AnswerPurpose, answer: Result<InternalAnswer, String>) -> (result: Result<
    String,
    String,
>)
    ensures
        match result {
            Ok(document) => answerFailure(purpose, answer) is None && answer->Ok_0.document == Ok::<
                String,
                String,
            >(document),
            Err(detail) => answerFailure(purpose, answer) == Some(detail@),
        },
{
    match answer {
        Err(cause) => {
            let label = match purpose {
                AnswerPurpose::Health => "账号服务健康检查失败：",
                AnswerPurpose::Identity => "读取账号服务管理身份失败：",
                AnswerPurpose::Session => "签发账号管理会话失败：",
            };
            Err(concatText(label, cause.as_str()))
        },
        Ok(answered) => {
            if !(200 <= answered.status && answered.status < 300) {
                let label = match purpose {
                    AnswerPurpose::Health => "账号服务健康检查返回 HTTP ",
                    AnswerPurpose::Identity => "读取账号服务管理身份返回 HTTP ",
                    AnswerPurpose::Session => "账号服务拒绝签发管理会话：HTTP ",
                };
                return Err(concatText(label, answered.statusText.as_str()));
            }
            match answered.document {
                Ok(document) => Ok(document),
                Err(cause) => {
                    let label = match purpose {
                        AnswerPurpose::Health => "账号服务健康响应无效：",
                        AnswerPurpose::Identity => "账号服务管理身份响应无效：",
                        AnswerPurpose::Session => "账号管理会话响应无效：",
                    };
                    Err(concatText(label, cause.as_str()))
                },
            }
        },
    }
}

/// The identity that a process answers with, or why there is none.
pub fn readManagementIdentity(answer: Result<InternalAnswer, String>) -> (result: Result<
    String,
    String,
>)
    ensures
        match result {
            Ok(document) => answerFailure(AnswerPurpose::Identity, answer) is None
                && answer->Ok_0.document == Ok::<String, String>(document),
            Err(detail) => answerFailure(AnswerPurpose::Identity, answer) == Some(detail@),
        },
{
    readAnswer(AnswerPurpose::Identity, answer)
}

/// What goes wrong with an inner request: here the document is read before the status is looked at.
pub open spec fn requestFailure(answer: Result<InternalAnswer, String>) -> Option<Seq<char>> {
    match answer {
        Err(cause) => Some("账号服务内部请求失败："@ + cause@),
        Ok(answered) => match answered.document {
            Err(cause) => Some("账号服务内部响应无效："@ + cause@),
            Ok(_) => if isSuccess(answered.status) {
                None
            } else {
                Some("账号服务拒绝内部请求：HTTP "@ + answered.statusText@)
            },
        },
    }
}

/// The document that answers an inner request, or why there is none.
pub fn requestWithoutBody(answer: Result<InternalAnswer, String>) -> (result: Result<String, String>)
    ensures
        match result {
            Ok(document) => requestFailure(answer) is None && answer->Ok_0.document == Ok::<
                String,
                String,
            >(document),
            Err(detail) => requestFailure(answer) == Some(detail@),
        },
{
    match answer {
        Err(cause) => Err(concatText("账号服务内部请求失败：", cause.as_str())),
        Ok(answered) => match answered.document {
            Err(cause) => Err(concatText("账号服务内部响应无效：", cause.as_str())),
            Ok(document) => if 200 <= answered.status && answered.status < 300 {
                Ok(document)
            } else {
                Err(concatText("账号服务拒绝内部请求：HTTP ", answered.statusText.as_str()))
            },
        },
    }
}

/// Whether the instance that was asked is well; an answer of another instance is refused.
pub fn verifyHealth(answer: Result<InternalAnswer, String>, expected: &str) -> (result: Result<
    (),
    String,
>)
    ensures
        match answerFailure(AnswerPurpose::Health, answer) {
            Some(failure) => result matches Err(detail) && detail@ == failure,
            None => if textMember(answer->Ok_0.document->Ok_0@, "serviceInstanceId"@) == Some(
                expected@,
            ) {
                result is Ok
            } else {
                result matches Err(detail) && detail@ == "账号服务健康响应实例标识不一致"@
            },
        },
{
    match readAnswer(AnswerPurpose::Health, answer) {
        Err(detail) => Err(detail),
        Ok(document) => {
            let instance = findText(document.as_str(), "serviceInstanceId");
            if healthBelongsTo(&instance, expected) {
                Ok(())
            } else {
                Err(copyText("账号服务健康响应实例标识不一致"))
            }
        },
    }
}

/// A process that ended by itself leaves the service faulted and without a process, tells how it ended, and keeps
/// the key that the service had.
pub proof fn lawExitedProcessIsFaulted(before: SupervisorView, status: String, after: SupervisorView, detail: Seq<char>)
    requires
        before.running is Some,
        unreachableProcess(before, ChildStatus::Exited(status), detail, after),
    ensures
        after.state == AccountServiceState::Faulted,
        after.running is None,
        after.apiKeyPrefix == before.apiKeyPrefix,
        after.apiKeyCreatedAt == before.apiKeyCreatedAt,
        after.error == Some("账号服务意外退出："@ + status@),
        detail == "账号服务意外退出："@ + status@,
{
}

/// A service that does not run, or whose process cannot be asked, is told as such and stays as it was; a process
/// that lives is never out of reach.
pub proof fn lawUnaskedProcessStays(
    before: SupervisorView,
    child: ChildStatus,
    reason: String,
    after: SupervisorView,
    detail: Seq<char>,
)
    ensures
        before.running is None ==> (unreachableProcess(before, child, detail, after) <==> detail
            == "账号服务未运行"@ && after == before),
        before.running is Some ==> !unreachableProcess(before, ChildStatus::Alive, detail, after),
        before.running is Some ==> (unreachableProcess(
            before,
            ChildStatus::Unreadable(reason),
            detail,
            after,
        ) <==> detail == "读取账号服务进程状态失败："@ + reason@ && after == before),
{
}

/// A service stopped in order only where it was asked to and its process ended well; every other end is told.
pub proof fn lawStopIsJudged(status: String, detail: String)
    ensures
        stopResult(true, ProcessEnd::Exited { success: true, status }) is None,
        forall|sent: bool, success: bool|
            !(sent && success) ==> #[trigger] stopResult(sent, ProcessEnd::Exited { success, status })
                == Some("账号服务关闭状态异常："@ + status@),
        forall|sent: bool|
            #[trigger] stopResult(sent, ProcessEnd::WaitFailed(detail)) == Some(
                "等待账号服务关闭失败："@ + detail@,
            ),
        forall|sent: bool|
            #[trigger] stopResult(sent, ProcessEnd::TimedOut { killError: None }) == Some(
                "账号服务有序关闭超时，已强制结束"@,
            ),
        forall|sent: bool|
            #[trigger] stopResult(sent, ProcessEnd::TimedOut { killError: Some(detail) }) == Some(
                "强制结束账号服务失败："@ + detail@,
            ),
{
}

/// An answer counts where its status is one of the two hundreds and its document can be read; the status is judged
/// before the document, and each failure is told for the question that was asked.
pub proof fn lawAnswerIsJudged(answered: InternalAnswer, cause: String)
    ensures
        forall|purpose: AnswerPurpose|
            #[trigger] answerFailure(purpose, Ok(answered)) is None <==> 200 <= answered.status <= 299
                && answered.document is Ok,
        answerFailure(AnswerPurpose::Health, Err(cause)) == Some("账号服务健康检查失败："@ + cause@),
        answerFailure(AnswerPurpose::Identity, Err(cause)) == Some(
            "读取账号服务管理身份失败："@ + cause@,
        ),
        answerFailure(AnswerPurpose::Session, Err(cause)) == Some("签发账号管理会话失败："@ + cause@),
        !(200 <= answered.status <= 299) ==> {
            &&& answerFailure(AnswerPurpose::Health, Ok(answered)) == Some(
                "账号服务健康检查返回 HTTP "@ + answered.statusText@,
            )
            &&& answerFailure(AnswerPurpose::Identity, Ok(answered)) == Some(
                "读取账号服务管理身份返回 HTTP "@ + answered.statusText@,
            )
            &&& answerFailure(AnswerPurpose::Session, Ok(answered)) == Some(
                "账号服务拒绝签发管理会话：HTTP "@ + answered.statusText@,
            )
        },
        200 <= answered.status <= 299 && answered.document is Err ==> {
            &&& answerFailure(AnswerPurpose::Health, Ok(answered)) == Some(
                "账号服务健康响应无效："@ + answered.document->Err_0@,
            )
            &&& answerFailure(AnswerPurpose::Identity, Ok(answered)) == Some(
                "账号服务管理身份响应无效："@ + answered.document->Err_0@,
            )
            &&& answerFailure(AnswerPurpose::Session, Ok(answered)) == Some(
                "账号管理会话响应无效："@ + answered.document->Err_0@,
            )
        },
{
}

/// A request to the service counts in the same case, but here a document that cannot be read is told before a
/// status that refuses.
pub proof fn lawRequestIsJudged(answered: InternalAnswer, cause: String)
    ensures
        requestFailure(Err(cause)) == Some("账号服务内部请求失败："@ + cause@),
        requestFailure(Ok(answered)) is None <==> 200 <= answered.status <= 299 && answered.document
            is Ok,
        answered.document is Err ==> requestFailure(Ok(answered)) == Some(
            "账号服务内部响应无效："@ + answered.document->Err_0@,
        ),
        answered.document is Ok && !(200 <= answered.status <= 299) ==> requestFailure(Ok(answered))
            == Some("账号服务拒绝内部请求：HTTP "@ + answered.statusText@),
{
}

/// A launch that fails is told by its stage, with the cause where the stage has one.
pub proof fn lawLaunchFailureIsTold(cause: Seq<char>)
    ensures
        launchMessage(LaunchStage::CreateDirectory, cause) == "创建账号数据库目录失败："@ + cause,
        launchMessage(LaunchStage::Spawn, cause) == "启动账号服务失败："@ + cause,
        launchMessage(LaunchStage::OpenInput, cause) == "账号服务标准输入管道不可用"@,
        launchMessage(LaunchStage::OpenOutput, cause) == "账号服务标准输出管道不可用"@,
        launchMessage(LaunchStage::EncodeRequest, cause) == "编码账号服务启动配置失败："@ + cause,
        launchMessage(LaunchStage::SendRequest, cause) == "发送账号服务启动配置失败："@ + cause,
        launchMessage(LaunchStage::FlushRequest, cause) == "刷新账号服务启动管道失败："@ + cause,
        launchMessage(LaunchStage::HandshakeTimeout, cause) == "等待账号服务启动握手超时"@,
        launchMessage(LaunchStage::ReadHandshake, cause) == "读取账号服务启动握手失败："@ + cause,
        launchMessage(LaunchStage::MissingHandshake, cause) == "账号服务未返回启动握手"@,
        launchMessage(LaunchStage::DecodeHandshake, cause) == "账号服务启动握手无效："@ + cause,
        launchMessage(LaunchStage::ForeignEndpoint, cause) == "账号服务启动握手端点不符合配置"@,
{
}

/// A ticket leads to the local login, and nothing else does.
pub proof fn lawTicketLeadsToLogin(ticket: Seq<char>, path: Seq<char>)
    ensures
        pointsToLogin("/api/v1/auth/local?ticket="@ + ticket),
        pointsToLogin(path) ==> exists|rest: Seq<char>| path == "/api/v1/auth/local?ticket="@ + rest,
{
    let head = "/api/v1/auth/local?ticket="@;
    assert((head + ticket).take(head.len() as int) =~= head);
    if pointsToLogin(path) {
        assert(path =~= head + path.skip(head.len() as int));
    }
}

/// The program has its platform's name, and an identity that lacks a field is told.
pub proof fn lawProgramHasItsName()
    ensures
        accountServiceFileName(PathStyle::Windows) == "accountService.exe"@,
        accountServiceFileName(PathStyle::Unix) == "accountService"@,
        incompleteIdentityMessage() == "账号服务管理身份响应缺少必要字段"@,
{
}

} // verus!
