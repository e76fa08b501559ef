#![allow(non_snake_case)]

use proxy_backend::controlApi::accountServiceSupervisor::{
    AccountServiceState, MultiAccountPublicState,
};
use proxy_backend::controlApi::configuration::{
    copyUsers, mergeRecordingSettings, resolveIp, secondsToMilliseconds, validateRecordingSettings,
    validateTransactionOffset, validateTransactionQuery, AuthenticationMode, ConfigurationUpdate,
    ConfigurationVerdicts, CredentialsUpdate, HttpProxyLimits, ManagedHttpProxyConfiguration,
    MultiAccountConfiguration, ParsedHosts, PersistedRecordingConfiguration,
    ProcessCaptureConfiguration, PublicAuthenticationMode, PublicConfiguration,
    PublicUpstreamProxyConfiguration, RecordingSettingsUpdate, RecordingState, Socks5Config,
    Socks5Limits, Socks5Timeouts, TimeoutInput, UpstreamProxyConfiguration, UpstreamProxyUpdate,
};
use proxy_backend::controlApi::configurationStore::{
    configurationPath, decodeApplicationConfiguration, load, pendingConfigurationName, planLoad,
    selectionChange, ApplicationConfiguration, ConfigurationStore, DomainChange, FileRead, LoadPlan,
    WriteStep,
};
use proxy_backend::controlApi::dataDirectory::{
    copyDirectoryEntry, copyFailure, dataDirectoryIn, installationDataDirectory, joinPath,
    migrationIsNeeded, resolveBesideExecutable, stagingDirectoryName, CopyStage,
    DataDirectoryError, EntryAction, EntryKind, Migration, MigrationEvent, MigrationStep,
    PathStyle,
};
use proxy_backend::controlApi::httpControl::ApiError;
use proxy_backend::controlApi::initialization::{
    certificateDirectory, defaultDataDirectory, planDataDirectory, restoreConfiguration,
    ControlInitializationError, DataDirectoryPlan, InitializationStep,
};
use proxy_backend::controlApi::processControl::{
    PersistedProcessSelection, ProcessSelectionUpdate,
};
use proxy_backend::localization::ErrorCode;
use proxy_backend::network::{Endpoint, HostAddress, IpAddress};

fn host() -> HostAddress {
    HostAddress { address: IpAddress::V4(0x7f00_0001), text: "127.0.0.1".to_string() }
}

fn upstream(password: &str) -> UpstreamProxyConfiguration {
    UpstreamProxyConfiguration {
        enabled: true,
        protocol: "http".to_string(),
        host: "up".to_string(),
        port: 3128,
        username: "u".to_string(),
        password: password.to_string(),
    }
}

fn socks5(mode: AuthenticationMode, users: Vec<CredentialsUpdate>) -> Socks5Config {
    Socks5Config {
        listenHost: host(),
        listenPort: 1080,
        authenticationMode: mode,
        users,
        timeouts: Socks5Timeouts { connect: 1000, bind: 2000, idle: 3000, shutdown: 4000, read: 5000 },
        limits: Socks5Limits { maxConnections: 10, relayBufferSize: 20, udpMaxPacketSize: 30 },
        udpBindHost: "0.0.0.0".to_string(),
        udpRemoteLimit: 40,
        sessionHistoryLimit: 50,
    }
}

fn http() -> ManagedHttpProxyConfiguration {
    ManagedHttpProxyConfiguration {
        enabled: true,
        listenHost: host(),
        listenPort: 1080,
        limits: HttpProxyLimits {
            maxConnections: 1,
            maxHeaderBytes: 2,
            maxCaptureBodyBytes: 3,
            connectTimeoutMilliseconds: 4,
            requestTimeoutMilliseconds: 5,
            headerReadTimeoutMilliseconds: 6,
            shutdownTimeoutMilliseconds: 7,
        },
        upstreamProxy: upstream("secret"),
    }
}

fn capture() -> ProcessCaptureConfiguration {
    ProcessCaptureConfiguration {
        enabled: true,
        processIds: vec![7],
        proxyPort: 1,
        proxyAddress: IpAddress::V4(0),
    }
}

fn accounts() -> MultiAccountConfiguration {
    MultiAccountConfiguration { enabled: true, remoteHost: "0.0.0.0".to_string(), remotePort: 18080 }
}

fn user() -> CredentialsUpdate {
    CredentialsUpdate { username: "name".to_string(), password: "word".to_string() }
}

fn update() -> ConfigurationUpdate {
    ConfigurationUpdate::fromInternal(
        &socks5(AuthenticationMode::NoAuth, vec![]),
        &http(),
        &capture(),
        &accounts(),
        true,
    )
}

fn hosts() -> ParsedHosts {
    ParsedHosts { listen: Some(host()), http: Some(host()), remote: Some(IpAddress::V4(0)) }
}

fn noObjection() -> ConfigurationVerdicts {
    ConfigurationVerdicts { socks5: None, http: None, httpWithUpstream: None, processCapture: None }
}

fn refusal(update: ConfigurationUpdate, hosts: ParsedHosts, verdicts: ConfigurationVerdicts) -> ErrorCode {
    let current = socks5(AuthenticationMode::NoAuth, vec![]);
    update.intoInternal(hosts, verdicts, &current, &http()).unwrap_err().code
}

#[test]
fn storedConfigurationIsRestored() {
    let stored = ConfigurationUpdate::fromInternal(
        &socks5(AuthenticationMode::UsernamePassword, vec![user()]),
        &http(),
        &capture(),
        &accounts(),
        true,
    );
    assert!(stored.startServiceOnLaunch);
    let current = socks5(AuthenticationMode::NoAuth, vec![]);
    let candidate = stored.intoInternal(hosts(), noObjection(), &current, &http()).unwrap();
    assert_eq!(candidate.socks5.authenticationMode, AuthenticationMode::UsernamePassword);
    assert_eq!(candidate.socks5.users[0].password, "word");
    assert_eq!(candidate.socks5.timeouts.idle, 3000);
    assert_eq!(candidate.http.upstreamProxy.password, "secret");
    assert_eq!(candidate.processCapture.proxyPort, 1080);
    assert_eq!(candidate.processCapture.proxyAddress, IpAddress::V4(0x7f00_0001));
    assert_eq!(candidate.multiAccount.remotePort, 18080);
    assert!(candidate.multiAccount.sameAs(&accounts().copied()));
}

#[test]
fn updatesAreRefusedInOrder() {
    let mut portless = update();
    portless.listenPort = 0;
    assert_eq!(refusal(portless, hosts(), noObjection()), ErrorCode::InvalidListenPort);
    let mut nowhere = hosts();
    nowhere.listen = None;
    assert_eq!(refusal(update(), nowhere, noObjection()), ErrorCode::InvalidListenHost);
    let mut open = update();
    open.credentials = Some(user());
    assert_eq!(
        refusal(open, hosts(), noObjection()),
        ErrorCode::CredentialsForbiddenWithoutAuthentication
    );
    let mut locked = update();
    locked.authenticationMode = PublicAuthenticationMode::Password;
    assert_eq!(refusal(locked, hosts(), noObjection()), ErrorCode::CredentialsRequired);
    let mut slow = update();
    slow.timeouts.read = TimeoutInput::OutOfRange;
    assert_eq!(refusal(slow, hosts(), noObjection()), ErrorCode::TimeoutOutOfRange);
    let mut objections = noObjection();
    objections.socks5 = Some("s".to_string());
    assert_eq!(refusal(update(), hosts(), objections), ErrorCode::InvalidConfiguration);
    let mut objections = noObjection();
    objections.httpWithUpstream = Some("h".to_string());
    assert_eq!(refusal(update(), hosts(), objections), ErrorCode::InvalidHttpProxyConfiguration);
    let mut remote = hosts();
    remote.remote = None;
    assert_eq!(refusal(update(), remote, noObjection()), ErrorCode::InvalidConfiguration);
}

#[test]
fn passwordsAreKeptWhereNoneIsGiven() {
    let kept = UpstreamProxyUpdate {
        enabled: true,
        protocol: "socks5".to_string(),
        host: "h".to_string(),
        port: 1,
        username: "u".to_string(),
        password: None,
    };
    assert_eq!(kept.intoInternal(&upstream("secret")).password, "secret");
    let changed = UpstreamProxyUpdate { password: Some("new".to_string()), ..kept };
    assert_eq!(changed.intoInternal(&upstream("secret")).password, "new");
    let shown = PublicUpstreamProxyConfiguration::fromInternal(&upstream("secret"));
    assert!(shown.hasPassword);
    assert!(!PublicUpstreamProxyConfiguration::fromInternal(&upstream("")).hasPassword);
    let public = PublicConfiguration::fromInternal(
        &socks5(AuthenticationMode::UsernamePassword, vec![user()]),
        &http(),
        &capture(),
        false,
        MultiAccountPublicState {
            enabled: true,
            remoteHost: "0.0.0.0".to_string(),
            remotePort: 18080,
            state: AccountServiceState::Running,
            apiKeyPrefix: Some("abcd".to_string()),
            apiKeyCreatedAt: None,
            summary: None,
            error: None,
        },
    );
    assert_eq!(public.multiAccount.apiKeyPrefix, Some("abcd".to_string()));
    assert_eq!(public.authenticationUsernames, vec!["name".to_string()]);
    assert_eq!(copyUsers(&vec![user()])[0].username, "name");
}

#[test]
fn timeoutsAreTranslated() {
    assert_eq!(secondsToMilliseconds("read", TimeoutInput::Milliseconds(1500)).unwrap(), 1500);
    for (input, code) in [
        (TimeoutInput::NotPositiveFinite, ErrorCode::TimeoutMustBePositiveFinite),
        (TimeoutInput::OutOfRange, ErrorCode::TimeoutOutOfRange),
        (TimeoutInput::BelowMillisecond, ErrorCode::TimeoutBelowMillisecond),
    ] {
        let error = secondsToMilliseconds("read", input).unwrap_err();
        assert_eq!((error.status, error.code), (400, code));
        assert_eq!(error.params.entries[0].value, "read");
    }
}

#[test]
fn remoteEntryNeedsAnAddress() {
    assert_eq!(
        accounts().publicAddress(Some(IpAddress::V4(1))).unwrap(),
        Endpoint { address: IpAddress::V4(1), port: 18080 }
    );
    assert!(accounts().publicAddress(None).is_err());
    let portless = MultiAccountConfiguration { remotePort: 0, ..accounts() };
    assert!(portless.publicAddress(Some(IpAddress::V4(1))).is_err());
}

#[test]
fn recordingPreferencesAreMerged() {
    assert_eq!(
        validateRecordingSettings(true, &vec![]).unwrap_err().code,
        ErrorCode::InvalidRecordingLimits
    );
    let error = validateRecordingSettings(false, &vec![None, Some("bad".to_string())]).unwrap_err();
    assert_eq!(error.code, ErrorCode::InvalidRecordingLocation);
    assert_eq!(error.params.entries[0].value, "bad");
    assert!(validateRecordingSettings(false, &vec![None]).is_ok());
    let initial: PersistedRecordingConfiguration<u8> = PersistedRecordingConfiguration::initial();
    assert!(initial.recordTunnelMetadata && initial.state == RecordingState::Recording);
    let merged = mergeRecordingSettings(
        initial,
        RecordingSettingsUpdate {
            state: Some(RecordingState::Paused),
            ignoreLocations: Some(vec![4u8]),
            recordTunnelMetadata: None,
            hasLimits: false,
        },
    );
    assert_eq!(merged.state, RecordingState::Paused);
    assert_eq!(merged.ignoreLocations, vec![4]);
    assert!(merged.recordTunnelMetadata);
}

#[test]
fn pagesAreBounded() {
    let token = Some("t".to_string());
    assert_eq!(validateTransactionQuery(None, None, &None).unwrap(), 200);
    assert_eq!(validateTransactionQuery(Some(0), Some(1000), &None).unwrap(), 1000);
    assert_eq!(validateTransactionQuery(Some(5), Some(1), &token).unwrap(), 1);
    assert!(validateTransactionQuery(Some(5), Some(1), &None).is_err());
    assert!(validateTransactionQuery(None, Some(0), &None).is_err());
    assert!(validateTransactionQuery(None, Some(1001), &None).is_err());
    assert!(validateTransactionQuery(None, None, &Some("x".repeat(129))).is_err());
    assert!(validateTransactionOffset(5, 5).is_ok());
    assert_eq!(
        validateTransactionOffset(6, 5).unwrap_err().code,
        ErrorCode::InvalidTransactionsQuery
    );
}

#[test]
fn ruleServiceNameIsAnsweredLocally() {
    let service = Some(IpAddress::V4(0x7f00_0001));
    let spoofed = Some(IpAddress::V4(9));
    assert_eq!(resolveIp("Client-Rules.internal.INVALID", service, spoofed), service);
    assert_eq!(resolveIp("example.com", service, spoofed), spoofed);
    assert_eq!(resolveIp("client-rules.internal.invalid", None, spoofed), None);
}

#[test]
fn pathsAreJoined() {
    assert_eq!(joinPath(PathStyle::Unix, "/a", "b"), "/a/b");
    assert_eq!(joinPath(PathStyle::Unix, "/a/", "b"), "/a/b");
    assert_eq!(joinPath(PathStyle::Unix, "", "b"), "b");
    assert_eq!(joinPath(PathStyle::Windows, "C:\\a", "b"), "C:\\a\\b");
    assert_eq!(joinPath(PathStyle::Windows, "C:/a/", "b"), "C:/a/b");
    assert_eq!(joinPath(PathStyle::Windows, "C:", "b"), "C:b");
    assert_eq!(joinPath(PathStyle::Unix, "C:\\a", "b"), "C:\\a/b");
    assert_eq!(certificateDirectory(PathStyle::Unix, "/data"), "/data/certs");
    assert_eq!(configurationPath(PathStyle::Unix, "/data"), "/data/configuration.json");
    assert_eq!(
        resolveBesideExecutable(PathStyle::Unix, None, &Some("/app".to_string()), "x"),
        "/app/x"
    );
}

#[test]
fn dataLiesBesideTheExecutable() {
    assert_eq!(
        installationDataDirectory(PathStyle::Unix, "/opt/app/proxyService").unwrap(),
        "/opt/app/data"
    );
    for (path, directory) in [
        ("/proxyService", "/data"),
        ("/opt/app/./proxyService", "/opt/app/data"),
        ("/opt/app//proxyService/", "/opt/app/data"),
        ("/opt/a:b/proxyService", "/opt/a:b/data"),
        ("app/proxyService", "app/data"),
        ("./proxyService", "./data"),
    ] {
        assert_eq!(installationDataDirectory(PathStyle::Unix, path).unwrap(), directory, "{path}");
    }
    for path in ["", "proxyService", "/", "/.", ".", "./."] {
        let error = installationDataDirectory(PathStyle::Unix, path).unwrap_err();
        assert_eq!(error.message(), format!("可执行文件路径没有有效的安装目录：{path}"));
    }
    assert!(dataDirectoryIn(PathStyle::Unix, "x", &Some(String::new())).is_err());
    assert_eq!(
        dataDirectoryIn(PathStyle::Windows, "C:\\a\\x.exe", &Some("C:\\a".to_string())).unwrap(),
        "C:\\a\\data"
    );
}

#[test]
fn dataDirectoryIsDecided() {
    let style = PathStyle::Unix;
    assert!(matches!(
        defaultDataDirectory(style, Some("/x".to_string()), Err("e".to_string()), None),
        Ok(DataDirectoryPlan::Chosen(directory)) if directory == "/x"
    ));
    assert!(matches!(
        defaultDataDirectory(style, None, Ok("/a/b".to_string()), Some("/old".to_string())),
        Ok(DataDirectoryPlan::Installation { directory, legacy })
            if directory == "/a/data" && legacy == "/old"
    ));
    let message = |result: Result<DataDirectoryPlan, ControlInitializationError>| {
        result.unwrap_err().message()
    };
    assert_eq!(
        message(defaultDataDirectory(style, None, Err("e".to_string()), None)),
        "读取代理服务可执行文件路径失败：e"
    );
    assert_eq!(
        message(defaultDataDirectory(style, None, Ok("x".to_string()), None)),
        "准备安装目录数据失败：可执行文件路径没有有效的安装目录：x"
    );
    assert_eq!(
        message(defaultDataDirectory(style, None, Ok("/a/b".to_string()), None)),
        "无法确定旧版用户数据目录"
    );
    assert!(planDataDirectory(None, None, Ok("/d".to_string()), Some("/l".to_string())).is_ok());
}

#[test]
fn initializationFailuresSayWhat() {
    let text = || "x".to_string();
    for (error, message) in [
        (ControlInitializationError::Capture(text()), "初始化录制会话失败：x"),
        (ControlInitializationError::Ssl(text()), "初始化 SSL 证书失败：x"),
        (ControlInitializationError::ToolMappingDirectory(text()), "初始化工具映射目录失败：x"),
        (
            ControlInitializationError::ProtocolDescriptorDirectory(text()),
            "初始化协议描述符目录失败：x",
        ),
        (ControlInitializationError::PluginHost(text()), "初始化插件宿主失败：x"),
        (
            ControlInitializationError::ToolConfiguration { detail: text() },
            "初始化工具配置失败：x",
        ),
    ] {
        assert_eq!(error.message(), message);
    }
}

#[test]
fn preparationsComeInOrder() {
    let mut step = InitializationStep::LoadConfiguration;
    let mut count = 0;
    while step != InitializationStep::Ready {
        let failure = if step == InitializationStep::StartMcp
            || step == InitializationStep::StartAccountService
        {
            Some("off".to_string())
        } else {
            None
        };
        step = step.newWithDataDirectory(true, failure).unwrap();
        count += 1;
    }
    assert_eq!(count, 17);
    assert_eq!(
        InitializationStep::OpenRecording.newWithDataDirectory(false, None).unwrap(),
        InitializationStep::LoadCertificates
    );
    assert!(matches!(
        InitializationStep::LoadPlugins.newWithDataDirectory(false, Some("p".to_string())),
        Err(ControlInitializationError::PluginHost(cause)) if cause == "p"
    ));
    assert!(matches!(
        InitializationStep::RestoreConfiguration.newWithDataDirectory(false, Some("r".to_string())),
        Err(ControlInitializationError::ToolMappingDirectory(_))
    ));
    assert_eq!(restoreConfiguration(None, 3u8), Ok(3));
    assert_eq!(restoreConfiguration(Some(Ok(4u8)), 3), Ok(4));
    assert_eq!(
        restoreConfiguration(
            Some(Err(ApiError::badRequest(ErrorCode::InvalidConfiguration))),
            3u8
        ),
        Err("保存的服务配置无效".to_string())
    );
}

#[test]
fn olderDataIsMoved() {
    assert!(migrationIsNeeded(false, false, true));
    assert!(!migrationIsNeeded(true, false, true));
    assert!(!migrationIsNeeded(false, true, true));
    assert!(!migrationIsNeeded(false, false, false));
    assert_eq!(
        stagingDirectoryName(1),
        ".data-migration-00000000-0000-0000-0000-000000000001"
    );
    assert_eq!(
        Migration::start("/d", None).unwrap_err().message(),
        "安装数据目录没有有效的父目录：/d"
    );
    let begin = || Migration::start("/a/data", Some("/a".to_string())).unwrap();
    let mut moved = begin();
    moved.migrateLegacyDataDirectory(MigrationEvent::Succeeded);
    moved.migrateLegacyDataDirectory(MigrationEvent::Destination { present: true, configured: false });
    moved.migrateLegacyDataDirectory(MigrationEvent::Entries { empty: true });
    moved.migrateLegacyDataDirectory(MigrationEvent::Succeeded);
    assert_eq!(moved.step, MigrationStep::MoveDirectory);
    moved.migrateLegacyDataDirectory(MigrationEvent::FileSystem("cross device".to_string()));
    moved.migrateLegacyDataDirectory(MigrationEvent::Configured(false));
    assert_eq!(moved.step, MigrationStep::CopyTree);
    moved.migrateLegacyDataDirectory(MigrationEvent::Succeeded);
    moved.migrateLegacyDataDirectory(MigrationEvent::Succeeded);
    assert_eq!(moved.step, MigrationStep::RemoveLegacy);
    moved.migrateLegacyDataDirectory(MigrationEvent::FileSystem("busy".to_string()));
    assert_eq!(moved.step, MigrationStep::Done);
}

#[test]
fn unknownDataIsNeverReplaced() {
    let begin = || Migration::start("/a/data", Some("/a".to_string())).unwrap();
    let mut conflict = begin();
    conflict.migrateLegacyDataDirectory(MigrationEvent::Succeeded);
    conflict.migrateLegacyDataDirectory(MigrationEvent::Destination { present: true, configured: false });
    conflict.migrateLegacyDataDirectory(MigrationEvent::Entries { empty: false });
    assert_eq!(conflict.step, MigrationStep::Failed);
    assert_eq!(
        conflict.failure.unwrap().message(),
        "目标数据目录已有内容但缺少 configuration.json，拒绝覆盖：/a/data"
    );
    let mut parentless = begin();
    parentless.migrateLegacyDataDirectory(MigrationEvent::FileSystem("ro".to_string()));
    assert_eq!(
        parentless.failure.unwrap().message(),
        "迁移数据目录失败（创建安装目录，/a）：ro"
    );
    let mut raced = begin();
    raced.migrateLegacyDataDirectory(MigrationEvent::Succeeded);
    raced.migrateLegacyDataDirectory(MigrationEvent::Destination { present: false, configured: false });
    raced.migrateLegacyDataDirectory(MigrationEvent::FileSystem("x".to_string()));
    raced.migrateLegacyDataDirectory(MigrationEvent::Configured(false));
    raced.migrateLegacyDataDirectory(MigrationEvent::CopyFailed(copyFailure(
        CopyStage::CopyFile,
        "/old/f",
        "/new/f",
        "full".to_string(),
    )));
    raced.migrateLegacyDataDirectory(MigrationEvent::Configured(true));
    assert_eq!(raced.step, MigrationStep::Done);
    let mut late = begin();
    late.migrateLegacyDataDirectory(MigrationEvent::Succeeded);
    late.migrateLegacyDataDirectory(MigrationEvent::Destination { present: true, configured: false });
    late.migrateLegacyDataDirectory(MigrationEvent::Unreadable("u".to_string()));
    assert_eq!(
        late.failure.unwrap().message(),
        "迁移数据目录失败（读取安装目录数据，/a/data）：u"
    );
}

#[test]
fn specialFilesAreNotCopied() {
    assert!(matches!(copyDirectoryEntry(EntryKind::Directory, "/x"), Ok(EntryAction::Descend)));
    assert!(matches!(copyDirectoryEntry(EntryKind::File, "/x"), Ok(EntryAction::CopyFile)));
    assert_eq!(
        copyDirectoryEntry(EntryKind::Special, "/x").unwrap_err().message(),
        "迁移数据目录失败（拒绝迁移特殊文件，/x）：数据目录包含符号链接或特殊文件"
    );
    for (stage, operation, path) in [
        (CopyStage::CreateTarget, "创建迁移暂存目录", "/t"),
        (CopyStage::ReadSource, "读取旧版用户数据目录", "/s"),
        (CopyStage::ReadEntry, "读取旧版用户数据项", "/s"),
        (CopyStage::ReadKind, "读取旧版用户数据类型", "/s"),
        (CopyStage::CopyFile, "复制旧版用户数据文件", "/s"),
        (CopyStage::SyncFile, "同步迁移数据文件", "/t"),
    ] {
        match copyFailure(stage, "/s", "/t", "e".to_string()) {
            DataDirectoryError::Io { operation: said, path: at, source } => {
                assert_eq!((said, at.as_str(), source.as_str()), (operation, path, "e"));
            }
            other => panic!("{other:?}"),
        }
    }
}

#[test]
fn retiredRulesAreRemovedFromTheFile() {
    let stored = b"{\"tools\":{\"recordingRules\":{},\"mirror\":1},\"mcp\":2}".to_vec();
    let trimmed = decodeApplicationConfiguration(&stored).unwrap();
    assert!(trimmed.removed);
    assert_eq!(trimmed.bytes, b"{\"mcp\":2,\"tools\":{\"mirror\":1}}");
    for kept in [
        "{\"recordingRules\":1}",
        "{ \"tools\": {\"RecordingRules\": {}} }",
        "{\"tools\":[\"recordingRules\"]}",
        "{\"mcp\":{\"recordingRules\":1},\"tools\":{}}",
        "[1]",
    ] {
        let plain = decodeApplicationConfiguration(&kept.as_bytes().to_vec()).unwrap();
        assert!(!plain.removed);
        assert_eq!(plain.bytes, kept.as_bytes());
    }
    let quoted = b"{\"a\\\"b\":\"c\",\"tools\":{\"recordingRules\":[1,2],\"x\":{\"y\":null}}}".to_vec();
    assert_eq!(
        decodeApplicationConfiguration(&quoted).unwrap().bytes,
        b"{\"a\\\"b\":\"c\",\"tools\":{\"x\":{\"y\":null}}}"
    );
    let alone = b"{\"tools\":{\"recordingRules\":1}}".to_vec();
    assert_eq!(decodeApplicationConfiguration(&alone).unwrap().bytes, b"{\"tools\":{}}");
    assert!(decodeApplicationConfiguration(&b"{".to_vec()).is_err());
    assert!(matches!(load(FileRead::NotFound), Ok(LoadPlan::BuiltIn)));
    assert_eq!(load(FileRead::Failed("denied".to_string())).unwrap_err(), "denied");
    assert!(load(FileRead::Bytes(b"{".to_vec())).is_err());
    assert!(matches!(
        load(FileRead::Bytes(stored)),
        Ok(LoadPlan::Decode { writeBack: true, .. })
    ));
    assert_eq!(
        planLoad(FileRead::Bytes(vec![]), Err("no document".to_string())).unwrap_err(),
        "no document"
    );
}

#[test]
fn filesAreReplacedAsAWhole() {
    assert_eq!(pendingConfigurationName(), "configuration.json.next");
    let mut step = WriteStep::CreateDirectory;
    let mut steps = Vec::new();
    while step != WriteStep::Done {
        steps.push(step);
        step = step.write(true);
    }
    assert_eq!(steps.last(), Some(&WriteStep::Replace));
    assert_eq!(steps[steps.len() - 2], WriteStep::SyncPending);
    assert_eq!(WriteStep::WritePending.write(false), WriteStep::Failed);
}

#[test]
fn oneDomainIsReplaced() {
    let mut store: ConfigurationStore<u8, u8> = ConfigurationStore {
        state: ApplicationConfiguration {
            service: 1,
            processSelection: PersistedProcessSelection { enabled: false, selectedPaths: vec![] },
            recording: 3,
            auxiliaryListeners: 4,
            ssl: 5,
            tools: 6,
            protocols: 7,
            mcp: 8,
        },
    };
    let others = |store: &ConfigurationStore<u8, u8>| {
        let state = &store.state;
        let plane = (state.recording, state.auxiliaryListeners, state.ssl);
        (state.service, plane, state.tools, state.protocols, state.mcp)
    };
    let before = others(&store);
    let update = |enabled: bool, paths: &[&str]| ProcessSelectionUpdate {
        enabled,
        selectedPaths: paths.iter().map(|path| path.to_string()).collect(),
    };
    let refused: Result<DomainChange<u8, u8>, &str> = selectionChange(update(true, &[" ", ""]));
    assert!(refused.is_err());
    let change: DomainChange<u8, u8> = selectionChange(update(true, &[" /a ", "/A"])).unwrap();
    {
        let document = store.candidate(&change);
        assert_eq!(document.processSelection.selectedPaths.len(), 1);
        assert_eq!((*document.service, *document.mcp), (1, 8));
    }
    assert_eq!(
        store.replaceConfiguration(change, Some("full".to_string())),
        Err("full".to_string())
    );
    assert!(!store.state.processSelection.enabled);
    let change = selectionChange(update(true, &[" /a "])).unwrap();
    assert!(store.replaceConfiguration(change, None).is_ok());
    assert!(store.state.processSelection.enabled);
    assert_eq!(store.state.processSelection.selectedPaths, vec!["/a".to_string()]);
    assert_eq!(others(&store), before);
    assert!(store.replaceConfiguration(DomainChange::Tools(9), None).is_ok());
    assert_eq!(store.state.tools, 9);
}
