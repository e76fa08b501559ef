#![allow(non_snake_case)]

use proxy_backend::controlApi::accountServiceControl::{accountServiceFailure, invalidRequest};
use proxy_backend::controlApi::accountServiceMapping::{
    forwardHeaders, forwardMappedRequest, keepForwarded, mappingFailure, shouldForwardHeader,
    MappingStep,
};
use proxy_backend::controlApi::accountServiceSupervisor::{
    acceptTicket, credentialVerdict, healthBelongsTo, identifyProcess, isStartupEndpointValid, locateWebAssets,
    managementSessionPath, needsWebAssets, randomInternalToken, readAnswer,
    readManagementIdentity, readyProcess, requestWithoutBody, resolveAccountServiceExecutable,
    resolveControlBaseUrl, resolveWebAssetsDirectory, ruleSetVerdict, startAddress,
    startProcessFailure, verifyHealth, AccountServiceEndpoint, AccountServiceState,
    AccountServiceSupervisor, AnswerPurpose, ChildStatus, InternalAnswer, LaunchStage,
    MultiAccountSummary, OwnDirectory, ProcessEnd, ProcessStart, RunningAccountService, StartPlan,
};
use proxy_backend::controlApi::configuration::MultiAccountConfiguration;
use proxy_backend::controlApi::dataDirectory::PathStyle;
use proxy_backend::controlApi::headerFields::RawField;
use proxy_backend::localization::ErrorCode;
use proxy_backend::network::{Endpoint, IpAddress};

fn running() -> RunningAccountService {
    RunningAccountService {
        endpoint: AccountServiceEndpoint {
            internalEndpoint: "http://127.0.0.1:4000".to_string(),
            internalToken: "token".to_string(),
            serviceInstanceId: "instance".to_string(),
        },
        publicAddress: Endpoint { address: IpAddress::V4(0), port: 18080 },
    }
}

fn remote(enabled: bool) -> MultiAccountConfiguration {
    MultiAccountConfiguration { enabled, remoteHost: "0.0.0.0".to_string(), remotePort: 18080 }
}

#[test]
fn mappedHeadersLoseTheirHop() {
    assert!(shouldForwardHeader("cookie") && shouldForwardHeader("set-cookie"));
    assert!(!shouldForwardHeader("host") && !shouldForwardHeader("transfer-encoding"));
    let mut headers = http::HeaderMap::new();
    for (name, value) in [("host", "x"), ("cookie", "a=1"), ("connection", "close"), ("accept", "*/*")] {
        headers.append(name, http::HeaderValue::from_static(value));
    }
    let kept = forwardHeaders(&headers);
    let lost = RawField { name: "te".to_string(), value: vec![] };
    assert!(keepForwarded(&vec![lost]).is_empty());
    let names: Vec<&str> = kept.iter().map(|field| field.name.as_str()).collect();
    assert_eq!(names, vec!["cookie", "accept"]);
    assert_eq!(kept[0].value, b"a=1");
}

#[test]
fn mappedPathsKeepTheirPrefix() {
    let base = || Ok("http://127.0.0.1:9".to_string());
    assert_eq!(
        forwardMappedRequest(base(), Some("/account-management/x?y=1".to_string()), "/account-management").unwrap(),
        "http://127.0.0.1:9/account-management/x?y=1"
    );
    assert_eq!(forwardMappedRequest(base(), None, "/api").unwrap(), "http://127.0.0.1:9/api");
    let refused = forwardMappedRequest(base(), Some("/other".to_string()), "/api").unwrap_err();
    assert_eq!((refused.status, refused.message.as_str()), (400, "账号管理映射路径无效"));
    let away = forwardMappedRequest(Err("off".to_string()), None, "/api").unwrap_err();
    assert_eq!((away.status, away.message.as_str()), (503, "off"));
}

#[test]
fn mappingFailuresHaveTheirStatus() {
    let large = mappingFailure(MappingStep::ReadRequest, "too large");
    assert_eq!((large.status, large.message.as_str()), (413, "读取账号管理请求正文失败：too large"));
    let send = mappingFailure(MappingStep::Send, "refused");
    assert_eq!((send.status, send.message.as_str()), (502, "连接账号管理服务失败：refused"));
    assert_eq!(mappingFailure(MappingStep::BuildResponse, "x").message, "构造账号管理响应失败：x");
    assert_eq!(mappingFailure(MappingStep::CreateClient, "x").message, "创建账号管理映射客户端失败：x");
    assert_eq!(mappingFailure(MappingStep::ReadResponse, "x").message, "读取账号管理响应失败：x");
}

#[test]
fn accountRequestsAreAnswered() {
    let failure = accountServiceFailure("down".to_string());
    assert_eq!((failure.status, failure.code), (500, ErrorCode::ServiceStartFailed));
    let invalid = invalidRequest("json".to_string());
    assert_eq!((invalid.status, invalid.code), (400, ErrorCode::InvalidConfigurationRequest));
    assert_eq!(invalid.params.entries[0].value, "json");
}

#[test]
fn accountServiceListensWhereConfigured() {
    assert_eq!(
        startAddress(&remote(true), Some(IpAddress::V4(0))).unwrap(),
        Endpoint { address: IpAddress::V4(0), port: 18080 }
    );
    assert_eq!(
        startAddress(&remote(false), None).unwrap(),
        Endpoint { address: IpAddress::V4(0x7f00_0001), port: 0 }
    );
    assert!(startAddress(&remote(true), None).is_err());
}

#[test]
fn supervisorRunsThroughItsStates() {
    let mut supervisor = AccountServiceSupervisor::new();
    assert!(matches!(supervisor.beginStart(ChildStatus::Alive), Ok(StartPlan::Launch)));
    assert_eq!(supervisor.state, AccountServiceState::Starting);
    let endpoint = supervisor
        .finishStart(ProcessStart::Ready {
            process: running(),
            apiKeyPrefix: "abcd".to_string(),
            apiKeyCreatedAt: 7,
        })
        .unwrap();
    assert_eq!(endpoint.serviceInstanceId, "instance");
    assert_eq!(supervisor.state, AccountServiceState::Running);
    assert!(matches!(
        supervisor.beginStart(ChildStatus::Alive),
        Ok(StartPlan::AlreadyRunning(_))
    ));
    let shown = supervisor.publicState(
        &remote(true),
        Ok(MultiAccountSummary {
            onlineAccounts: 1,
            activeConnections: 2,
            uploadBytesPerSecond: 3,
            downloadBytesPerSecond: 4,
        }),
    );
    assert_eq!(shown.apiKeyPrefix, Some("abcd".to_string()));
    assert_eq!(shown.summary.unwrap().activeConnections, 2);
    supervisor.updateIdentity(
        "{\"identity\":{\"apiKeyPrefix\":\"wxyz\",\"apiKeyCreatedAt\":8}}",
    );
    assert_eq!(supervisor.apiKeyCreatedAt, Some(8));
    assert_eq!(
        supervisor.mappedPublicEndpoint(ChildStatus::Alive),
        Ok(Endpoint { address: IpAddress::V4(0x7f00_0001), port: 18080 })
    );
    assert!(supervisor.beginStop());
    assert!(supervisor
        .finishStop(true, ProcessEnd::Exited { success: true, status: "0".to_string() })
        .is_ok());
    assert_eq!(supervisor.state, AccountServiceState::Stopped);
    assert!(!supervisor.beginStop());
}

#[test]
fn supervisorTellsItsFailures() {
    let mut supervisor = AccountServiceSupervisor::new();
    assert!(supervisor.beginStart(ChildStatus::Alive).is_ok());
    assert_eq!(supervisor.finishStart(ProcessStart::Failed("x".to_string())).unwrap_err(), "x");
    assert_eq!(supervisor.state, AccountServiceState::Faulted);
    assert!(supervisor.beginStart(ChildStatus::Alive).is_ok());
    assert_eq!(
        supervisor.finishStart(ProcessStart::IncompleteIdentity).unwrap_err(),
        "账号服务管理身份响应缺少必要字段"
    );
    let stopping = || {
        let mut supervisor = AccountServiceSupervisor::new();
        assert!(supervisor.beginStart(ChildStatus::Alive).is_ok());
        assert!(supervisor
            .finishStart(ProcessStart::Ready {
                process: running(),
                apiKeyPrefix: "abcd".to_string(),
                apiKeyCreatedAt: 7,
            })
            .is_ok());
        assert!(supervisor.beginStop());
        supervisor
    };
    assert_eq!(
        stopping()
            .finishStop(true, ProcessEnd::Exited { success: false, status: "1".to_string() })
            .unwrap_err(),
        "账号服务关闭状态异常：1"
    );
    assert_eq!(
        stopping().finishStop(true, ProcessEnd::WaitFailed("w".to_string())).unwrap_err(),
        "等待账号服务关闭失败：w"
    );
    assert_eq!(
        stopping().finishStop(true, ProcessEnd::TimedOut { killError: None }).unwrap_err(),
        "账号服务有序关闭超时，已强制结束"
    );
    assert_eq!(
        stopping()
            .finishStop(true, ProcessEnd::TimedOut { killError: Some("k".to_string()) })
            .unwrap_err(),
        "强制结束账号服务失败：k"
    );
}

#[test]
fn endpointOfALostProcessIsRefused() {
    let mut supervisor = AccountServiceSupervisor::new();
    assert!(supervisor.endpoint(ChildStatus::Alive).is_err());
    assert!(supervisor.beginStart(ChildStatus::Alive).is_ok());
    assert!(supervisor
        .finishStart(ProcessStart::Ready {
            process: running(),
            apiKeyPrefix: "abcd".to_string(),
            apiKeyCreatedAt: 7,
        })
        .is_ok());
    assert_eq!(supervisor.endpoint(ChildStatus::Alive).unwrap().copied().internalToken, "token");
    assert_eq!(
        supervisor.endpoint(ChildStatus::Exited("9".to_string())).unwrap_err(),
        "账号服务意外退出：9"
    );
    assert_eq!(supervisor.state, AccountServiceState::Faulted);
}

#[test]
fn ticketsBelongToTheirInstance() {
    let illegal = "账号管理会话返回了非法入口路径";
    assert_eq!(managementSessionPath("/account-management/t", "a", "b").unwrap_err(), illegal);
    assert_eq!(acceptTicket("/account-management/t").unwrap_err(), illegal);
    let ticket = "/api/v1/auth/local?ticket=t";
    assert!(acceptTicket(ticket).is_ok());
    assert!(managementSessionPath(ticket, "a", "b").is_err());
    assert_eq!(
        managementSessionPath(ticket, "a", "a").unwrap(),
        "/account-management/api/v1/auth/local?ticket=t"
    );
    assert!(credentialVerdict(204, "204 No Content").unwrap());
    assert_eq!(
        credentialVerdict(200, "200 OK").unwrap_err(),
        "账号服务凭据校验返回异常状态：HTTP 200 OK"
    );
    assert!(!credentialVerdict(401, "401").unwrap());
    assert!(credentialVerdict(500, "500 Internal").unwrap_err().contains("500 Internal"));
    assert!(!ruleSetVerdict(404, "404").unwrap());
    assert!(ruleSetVerdict(500, "500").is_err());
}

#[test]
fn handshakeMustAnswerTheStart() {
    let local = IpAddress::V4(0x7f00_0001);
    assert!(isStartupEndpointValid(0, 9, local, "i"));
    assert!(isStartupEndpointValid(9, 9, local, "i"));
    assert!(!isStartupEndpointValid(9, 8, local, "i"));
    assert!(!isStartupEndpointValid(9, 9, IpAddress::V4(0x0a00_0001), "i"));
    assert!(!isStartupEndpointValid(9, 9, local, ""));
    assert!(!needsWebAssets(Endpoint { address: local, port: 0 }));
    assert!(needsWebAssets(Endpoint { address: local, port: 1 }));
    assert!(needsWebAssets(Endpoint { address: IpAddress::V4(0), port: 0 }));
    assert!(healthBelongsTo(&Some("i".to_string()), "i"));
    assert!(!healthBelongsTo(&None, "i"));
}

#[test]
fn controlBaseUrlHasADefault() {
    assert_eq!(resolveControlBaseUrl(None).unwrap(), "http://127.0.0.1:17890");
    assert_eq!(resolveControlBaseUrl(Some("http://x".to_string())).unwrap(), "http://x");
    assert_eq!(resolveControlBaseUrl(Some(String::new())).unwrap_err(), "本机控制地址不能为空");
}

#[test]
fn internalTokensAreRandom() {
    let first = randomInternalToken();
    assert_eq!(first.len(), 43);
    assert!(first.chars().all(|c| c.is_ascii_alphanumeric() || c == '-' || c == '_'));
    assert_ne!(first, randomInternalToken());
}

#[test]
fn accountServiceFilesLieBesideTheProcess() {
    let own = OwnDirectory::Known("C:\\app".to_string());
    assert_eq!(
        resolveAccountServiceExecutable(PathStyle::Windows, None, &own).unwrap(),
        "C:\\app\\accountService.exe"
    );
    assert_eq!(
        resolveAccountServiceExecutable(PathStyle::Unix, Some("/x".to_string()), &own).unwrap(),
        "/x"
    );
    assert_eq!(
        resolveAccountServiceExecutable(PathStyle::Unix, None, &OwnDirectory::Missing).unwrap_err(),
        "代理服务可执行文件没有父目录"
    );
    assert_eq!(
        resolveAccountServiceExecutable(
            PathStyle::Unix,
            None,
            &OwnDirectory::Unknown("e".to_string())
        )
        .unwrap_err(),
        "定位代理服务可执行文件失败：e"
    );
    let unix = OwnDirectory::Known("/opt/app".to_string());
    assert_eq!(locateWebAssets(PathStyle::Unix, None, &unix).unwrap(), "/opt/app/web");
    assert_eq!(
        locateWebAssets(PathStyle::Unix, None, &OwnDirectory::Unknown("e".to_string())).unwrap_err(),
        "定位远程 Web 资源失败：e"
    );
    assert_eq!(
        locateWebAssets(PathStyle::Unix, None, &OwnDirectory::Missing).unwrap_err(),
        "代理服务可执行文件没有父目录"
    );
    assert_eq!(resolveWebAssetsDirectory("/w".to_string(), true, true).unwrap(), "/w");
    assert_eq!(
        resolveWebAssetsDirectory("/w".to_string(), true, false).unwrap_err(),
        "远程 Web 资源目录无效：/w"
    );
}

#[test]
fn launchFailuresSayWhere() {
    let messages = [
        (LaunchStage::CreateDirectory, "创建账号数据库目录失败：c"),
        (LaunchStage::Spawn, "启动账号服务失败：c"),
        (LaunchStage::OpenInput, "账号服务标准输入管道不可用"),
        (LaunchStage::OpenOutput, "账号服务标准输出管道不可用"),
        (LaunchStage::EncodeRequest, "编码账号服务启动配置失败：c"),
        (LaunchStage::SendRequest, "发送账号服务启动配置失败：c"),
        (LaunchStage::FlushRequest, "刷新账号服务启动管道失败：c"),
        (LaunchStage::HandshakeTimeout, "等待账号服务启动握手超时"),
        (LaunchStage::ReadHandshake, "读取账号服务启动握手失败：c"),
        (LaunchStage::MissingHandshake, "账号服务未返回启动握手"),
        (LaunchStage::DecodeHandshake, "账号服务启动握手无效：c"),
        (LaunchStage::ForeignEndpoint, "账号服务启动握手端点不符合配置"),
    ];
    for (stage, message) in messages {
        assert_eq!(startProcessFailure(stage, "c"), message);
    }
}

fn answer(status: u16, document: Result<&str, &str>) -> Result<InternalAnswer, String> {
    Ok(InternalAnswer {
        status,
        statusText: status.to_string(),
        document: document.map(|text| text.to_string()).map_err(|text| text.to_string()),
    })
}

#[test]
fn healthMustComeFromTheSameInstance() {
    let health = |name: &str| format!("{{\"serviceInstanceId\":\"{name}\"}}");
    assert!(verifyHealth(answer(200, Ok(&health("i"))), "i").is_ok());
    for document in [health("j"), "{}".to_string(), "[]".to_string()] {
        assert_eq!(
            verifyHealth(answer(200, Ok(&document)), "i").unwrap_err(),
            "账号服务健康响应实例标识不一致"
        );
    }
    assert_eq!(
        verifyHealth(Err("e".to_string()), "i").unwrap_err(),
        "账号服务健康检查失败：e"
    );
    assert_eq!(
        verifyHealth(answer(503, Err("e")), "i").unwrap_err(),
        "账号服务健康检查返回 HTTP 503"
    );
    assert_eq!(
        verifyHealth(answer(200, Err("e")), "i").unwrap_err(),
        "账号服务健康响应无效：e"
    );
}

#[test]
fn answersAreReadInOrder() {
    assert_eq!(requestWithoutBody(answer(200, Ok("{}"))).unwrap(), "{}");
    assert_eq!(
        requestWithoutBody(answer(500, Ok("{}"))).unwrap_err(),
        "账号服务拒绝内部请求：HTTP 500"
    );
    assert_eq!(
        requestWithoutBody(answer(500, Err("e"))).unwrap_err(),
        "账号服务内部响应无效：e"
    );
    assert_eq!(
        requestWithoutBody(Err("e".to_string())).unwrap_err(),
        "账号服务内部请求失败：e"
    );
    assert_eq!(
        readManagementIdentity(answer(500, Err("e"))).unwrap_err(),
        "读取账号服务管理身份返回 HTTP 500"
    );
    assert_eq!(
        readManagementIdentity(Err("e".to_string())).unwrap_err(),
        "读取账号服务管理身份失败：e"
    );
    assert_eq!(
        readAnswer(AnswerPurpose::Session, answer(403, Ok("{}"))).unwrap_err(),
        "账号服务拒绝签发管理会话：HTTP 403"
    );
}

#[test]
fn identitiesMustBeWhole() {
    assert!(matches!(
        identifyProcess(running(), "{\"apiKeyPrefix\":\"abcd\",\"apiKeyCreatedAt\":7}"),
        ProcessStart::Ready { apiKeyPrefix, apiKeyCreatedAt: 7, .. } if apiKeyPrefix == "abcd"
    ));
    for document in ["{\"apiKeyPrefix\":\"abcd\"}", "{\"apiKeyPrefix\":1,\"apiKeyCreatedAt\":7}", ""] {
        assert!(matches!(identifyProcess(running(), document), ProcessStart::IncompleteIdentity));
    }
    assert!(matches!(readyProcess(running(), None, Some(1)), ProcessStart::IncompleteIdentity));
    let mut supervisor = AccountServiceSupervisor::new();
    supervisor.takeIdentity(Some("old".to_string()), Some(1));
    supervisor.updateIdentity("{\"other\":1}");
    assert_eq!(supervisor.apiKeyCreatedAt, Some(1));
    supervisor.updateIdentity("{\"identity\":{\"apiKeyPrefix\":\"new\"}}");
    assert_eq!(supervisor.apiKeyPrefix, Some("new".to_string()));
    assert_eq!(supervisor.apiKeyCreatedAt, None);
    assert_eq!(
        supervisor.mappedPublicEndpoint(ChildStatus::Alive).unwrap_err(),
        "账号服务未运行"
    );
}
