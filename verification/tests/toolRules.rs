#![allow(non_snake_case)]

use proxy_backend::controlApi::listenerControl::{
    listenEndpoints, validateAuxiliaryListenerConfiguration, AuxiliaryChange,
    AuxiliaryConfiguration, ListenRule, ListenerReplacement, ReplacementStep,
};
use proxy_backend::controlApi::mapLocalImport::{
    mapImportError, normalizeRelativePath, pathToProtocolString, stagingName, updateDirectoryRoot,
    ImportField, ImportSession, MapLocalImportError,
};
use proxy_backend::controlApi::mcpControl::{
    replaceMcpConfiguration, McpConfiguration, McpManager, McpStep,
};
use proxy_backend::controlApi::pluginControl::{
    pluginApiError, setPluginEnabled, PluginHostError, PluginSwitch,
};
use proxy_backend::controlApi::protocolHandler::{
    claimsConnection, planTunnel, ConnectionOutcome, ConnectionStep, OriginalTarget,
};
use proxy_backend::controlApi::runtimeEventControl::{
    drainRuntimeEventForwarder, mayReleaseCapturedBytes, projectSocksSessions, projectionFor,
    waitForControlShutdown, waitForServerExit, DrainAction, DrainOutcome, ExitObservation,
    Follower, FollowerAction, FollowerEvent, FollowerPhase, SessionProjection,
};
use proxy_backend::controlApi::serviceState::ServiceState;
use proxy_backend::controlApi::sessions::{SessionSnapshot, SessionState};
use proxy_backend::controlApi::sslControl::{
    admitField, exportSslRoot, mapSslOperationError, parseLimitedUtf8, updateSsl, CertificateField,
    ClientCertificateFields, FieldValue, RootCertificateFormat, SslMitmError,
};
use proxy_backend::controlApi::toolControl::{
    allTools, choosePresets, mapBreakpointError, mapBreakpointOperationError, mapHarExportError,
    mapToolReadError, mapToolUpdateError, prepareUpdate, publicPipelineOrder, setUpTools,
    throttlingPresets, toolConfiguration, toolsInSetupOrder, BreakpointError, HarExportError,
    PersistedToolsConfiguration, ToolControlError, ToolId, ToolRuntime, ToolSetup,
};
use proxy_backend::localization::ErrorCode;
use proxy_backend::network::{Endpoint, IpAddress};

fn configurations() -> PersistedToolsConfiguration<u8> {
    PersistedToolsConfiguration {
        recordingRules: 1,
        packetFilters: 2,
        blockList: 3,
        noCaching: 4,
        blockCookies: 5,
        dnsSpoofing: 6,
        mapLocal: 7,
        mapRemote: 8,
        rewrite: 9,
        breakpoints: 10,
        throttling: 11,
        mirror: 12,
        autoSave: 13,
    }
}

fn setups(problem: Option<ToolId>) -> Vec<ToolSetup> {
    [
        ToolId::RecordingRules,
        ToolId::PacketFilters,
        ToolId::BlockList,
        ToolId::NoCaching,
        ToolId::BlockCookies,
        ToolId::DnsSpoofing,
        ToolId::MapLocal,
        ToolId::MapRemote,
        ToolId::Rewrite,
        ToolId::Breakpoints,
        ToolId::Throttling,
        ToolId::Mirror,
        ToolId::AutoSave,
    ]
    .into_iter()
    .map(|tool| ToolSetup {
        tool,
        problem: if problem == Some(tool) { Some("bad".to_string()) } else { None },
    })
    .collect()
}

fn openSession(created: u64, state: SessionState) -> SessionSnapshot {
    SessionSnapshot {
        sessionId: String::new(),
        state,
        createdAtMilliseconds: created,
        updatedAtMilliseconds: 0,
        closedAtMilliseconds: 0,
        errorMessage: String::new(),
        capturedBytesUp: vec![],
        capturedBytesDown: vec![],
        capturedPackets: vec![],
    }
}

#[test]
fn toolsAreKnownByName() {
    let names = publicPipelineOrder();
    assert_eq!(names.len(), 13);
    assert_eq!((names[0].as_str(), names[12].as_str()), ("recordingRules", "packetFilters"));
    for (tool, name) in allTools().into_iter().zip(names) {
        assert_eq!(tool.name(), name);
        assert_eq!(ToolId::fromName(&name), Some(tool));
    }
    assert_eq!(ToolId::fromName("Mirror"), None);
}

#[test]
fn oneToolIsReplacedAtATime() {
    let mut runtime = ToolRuntime { configurations: configurations(), suspendedBreakpointCount: 2 };
    let tool = prepareUpdate("mirror", true, true).unwrap();
    assert_eq!(runtime.update(tool, 99, false), Err(ToolControlError::Persistence));
    assert_eq!(*runtime.configurations.configuration(ToolId::Mirror), 12);
    assert!(runtime.update(tool, 99, true).is_ok());
    for other in allTools() {
        let expected = if other == ToolId::Mirror {
            99
        } else {
            *configurations().configuration(other)
        };
        assert_eq!(*runtime.configurations.configuration(other), expected);
    }
    for other in allTools() {
        runtime.configurations.replace(other, 50);
        assert_eq!(*runtime.configurations.configuration(other), 50);
    }
    assert!(runtime.releaseBreakpointQueue());
    assert!(!runtime.releaseBreakpointQueue());
    assert_eq!(prepareUpdate("nope", true, true), Err(ToolControlError::UnknownTool));
    assert_eq!(prepareUpdate("mirror", false, true), Err(ToolControlError::InvalidConfiguration));
    assert_eq!(prepareUpdate("mirror", true, false), Err(ToolControlError::InvalidConfiguration));
}

#[test]
fn presetsAreKeptWhereNoneAreSent() {
    assert_eq!(throttlingPresets("{\"enabled\":true}", 1, 2), 2);
    assert_eq!(throttlingPresets("{\"userPresets\":[]}", 1, 2), 1);
    assert_eq!(throttlingPresets("[]", 1, 2), 1);
    assert_eq!(choosePresets(Some(false), 1, 2), 2);
    assert_eq!(choosePresets(None, 1, 2), 1);
}

#[test]
fn toolsAreSetUpInOrder() {
    let order: Vec<ToolId> = setups(None).iter().map(|setup| setup.tool).collect();
    assert_eq!(toolsInSetupOrder(), order);
    assert!(setUpTools(&setups(None), None).is_ok());
    assert_eq!(setUpTools(&setups(Some(ToolId::MapLocal)), None).unwrap_err(), "mapLocal:bad");
    assert_eq!(
        setUpTools(&setups(Some(ToolId::RecordingRules)), Some("full".to_string())).unwrap_err(),
        "recordingRules:bad"
    );
    assert_eq!(setUpTools(&setups(None), Some("full".to_string())).unwrap_err(), "pipeline:full");
}

#[test]
fn toolFailuresAreAnswered() {
    let update = |error| {
        let answer = mapToolUpdateError(error);
        (answer.status, answer.code)
    };
    assert_eq!(update(ToolControlError::UnknownTool), (404, ErrorCode::ToolNotFound));
    assert_eq!(
        update(ToolControlError::InvalidConfiguration),
        (400, ErrorCode::InvalidToolConfiguration)
    );
    assert_eq!(update(ToolControlError::BreakpointNotFound), (404, ErrorCode::BreakpointNotFound));
    assert_eq!(update(ToolControlError::Operation), (500, ErrorCode::ToolOperationFailed));
    assert_eq!(
        update(ToolControlError::Persistence),
        (500, ErrorCode::ConfigurationPersistenceFailed)
    );
    assert_eq!(mapToolReadError(ToolControlError::UnknownTool).status, 404);
    assert_eq!(
        mapToolReadError(ToolControlError::InvalidConfiguration).code,
        ErrorCode::ToolOperationFailed
    );
    assert_eq!(
        mapBreakpointOperationError(mapBreakpointError(BreakpointError::ResolutionClosed)).status,
        404
    );
    assert_eq!(
        mapBreakpointOperationError(mapBreakpointError(BreakpointError::Other)).code,
        ErrorCode::BreakpointOperationFailed
    );
    assert_eq!(mapBreakpointError(BreakpointError::NotFound), ToolControlError::BreakpointNotFound);
    assert_eq!(mapHarExportError(HarExportError::TransactionNotFound).status, 404);
    assert_eq!(
        mapHarExportError(HarExportError::Other).code,
        ErrorCode::ExportOperationFailed
    );
    assert_eq!(toolConfiguration("mirror", Some("{}".to_string())).unwrap(), "{}");
    assert_eq!(toolConfiguration("mirror", None).unwrap_err().status, 500);
    assert_eq!(toolConfiguration("x", None).unwrap_err().status, 404);
}

#[test]
fn pluginFailuresAreAnswered() {
    for (error, status, code) in [
        (PluginHostError::NotFound, 404, ErrorCode::PluginNotFound),
        (PluginHostError::InvalidConfiguration, 400, ErrorCode::PluginOperationFailed),
        (PluginHostError::Package, 400, ErrorCode::PluginOperationFailed),
        (PluginHostError::PackageTooLarge, 400, ErrorCode::PluginOperationFailed),
        (PluginHostError::Other, 409, ErrorCode::PluginOperationFailed),
    ] {
        let answer = pluginApiError(error);
        assert_eq!((answer.status, answer.code), (status, code));
    }
    assert_eq!(setPluginEnabled(true), PluginSwitch::Enable);
    assert_eq!(setPluginEnabled(false), PluginSwitch::Disable);
}

#[test]
fn certificateFailuresAreAnswered() {
    let missing = mapSslOperationError(SslMitmError::ClientCertificateNotFound);
    assert_eq!((missing.status, missing.code), (404, ErrorCode::InvalidSslConfiguration));
    for error in [
        SslMitmError::InvalidLocation,
        SslMitmError::InvalidCacheLimit,
        SslMitmError::InvalidClientCertificate,
        SslMitmError::DuplicateClientCertificate,
        SslMitmError::ClientCertificateLimit,
    ] {
        assert_eq!(mapSslOperationError(error).status, 400);
    }
    let other = mapSslOperationError(SslMitmError::Other("storage".to_string()));
    assert_eq!((other.status, other.code), (500, ErrorCode::SslOperationFailed));
    assert_eq!(other.params.entries[0].name, "sslCode");
    assert!(updateSsl(None, true, None).is_ok());
    assert_eq!(
        updateSsl(None, false, None).unwrap_err().code,
        ErrorCode::ConfigurationPersistenceFailed
    );
    assert_eq!(updateSsl(Some(SslMitmError::InvalidLocation), false, None).unwrap_err().status, 400);
    assert_eq!(
        updateSsl(None, true, Some(SslMitmError::Other("x".to_string()))).unwrap_err().status,
        500
    );
}

#[test]
fn certificateFieldsAreBounded() {
    let name = |text: &str| Some(text.to_string());
    assert_eq!(admitField(&name("name"), 320).unwrap(), CertificateField::Name);
    assert!(admitField(&name("name"), 321).is_err());
    assert_eq!(admitField(&name("format"), 32).unwrap(), CertificateField::Format);
    assert!(admitField(&name("enabled"), 9).is_err());
    assert!(admitField(&name("locations"), 65537).is_err());
    assert_eq!(admitField(&name("certificate"), 8388608).unwrap(), CertificateField::Certificate);
    assert!(admitField(&name("privateKey"), 8388609).is_err());
    assert!(admitField(&name("password"), 4097).is_err());
    assert!(admitField(&name("other"), 1).is_err());
    assert!(admitField(&None, 1).is_err());
    assert_eq!(parseLimitedUtf8(&b"ab".to_vec(), 2).unwrap(), "ab");
    assert!(parseLimitedUtf8(&b"abc".to_vec(), 2).is_err());
    assert!(parseLimitedUtf8(&vec![0xff], 2).is_err());
}

#[test]
fn certificateUploadIsCollected() {
    let mut fields: ClientCertificateFields<u8, u16> = ClientCertificateFields::new();
    let taken = |fields: &mut ClientCertificateFields<u8, u16>, field, value| {
        fields.receiveClientCertificate(field, value).is_ok()
    };
    assert!(taken(&mut fields, CertificateField::Name, FieldValue::Bytes(b"old".to_vec())));
    assert!(taken(&mut fields, CertificateField::Name, FieldValue::Bytes(b"id".to_vec())));
    assert!(!taken(&mut fields, CertificateField::Format, FieldValue::Format(None)));
    assert!(!taken(&mut fields, CertificateField::Format, FieldValue::Bytes(vec![1])));
    assert!(taken(&mut fields, CertificateField::Format, FieldValue::Format(Some(4))));
    assert!(taken(&mut fields, CertificateField::Locations, FieldValue::Locations(Some(5))));
    assert!(taken(&mut fields, CertificateField::Password, FieldValue::Bytes(b"pw".to_vec())));
    let mut unfinished: ClientCertificateFields<u8, u16> = ClientCertificateFields::new();
    assert!(taken(&mut unfinished, CertificateField::Enabled, FieldValue::Bytes(b"false".to_vec())));
    assert_eq!(unfinished.enabled, Some(false));
    assert!(taken(
        &mut unfinished,
        CertificateField::Enabled,
        FieldValue::Bytes(b" true\r\n\t".to_vec())
    ));
    assert_eq!(unfinished.enabled, Some(true));
    for bad in ["", " ", "True", "1", "\"true\"", "true false", "truefalse", "tru e", "null"] {
        let value = FieldValue::Bytes(bad.as_bytes().to_vec());
        assert!(!taken(&mut unfinished, CertificateField::Enabled, value), "{bad}");
    }
    assert_eq!(unfinished.enabled, Some(true));
    assert_eq!(unfinished.intoImport().unwrap_err().code, ErrorCode::InvalidSslConfiguration);
    assert!(taken(&mut fields, CertificateField::Certificate, FieldValue::Bytes(vec![7])));
    assert!(taken(&mut fields, CertificateField::PrivateKey, FieldValue::Bytes(vec![8])));
    let import = fields.intoImport().unwrap();
    assert_eq!((import.name.as_str(), import.format, import.enabled), ("id", 4, true));
    assert_eq!((import.certificateBytes, import.keyBytes), (vec![7], Some(vec![8])));
    assert_eq!(import.password, "pw");
    let pem = exportSslRoot(RootCertificateFormat::Pem);
    assert_eq!(pem.disposition, "attachment; filename=\"root.pem\"");
    assert_eq!(exportSslRoot(RootCertificateFormat::Cer).contentType, "application/pkix-cert");
}

#[test]
fn relativePathsStayBelow() {
    let names = |text: &str| normalizeRelativePath(text).map(|names| pathToProtocolString(&names));
    assert_eq!(names("a/b.txt"), Ok("a/b.txt".to_string()));
    assert_eq!(names("a\\b//c/d"), Ok("a/b/c/d".to_string()));
    assert_eq!(names("a/b/c/d"), Ok("a/b/c/d".to_string()));
    for bad in
        ["", "/a", "\\a", "C:/a", "c:a", "./a", "a/./b", "a/.", "a/../b", "a\\..\\b", "..", ".", "//"]
    {
        assert_eq!(names(bad), Err(MapLocalImportError::InvalidRequest), "{bad}");
    }
    assert!(names(&"a".repeat(4097)).is_err());
    assert_eq!(
        mapImportError(MapLocalImportError::Storage).code,
        ErrorCode::ToolOperationFailed
    );
    assert_eq!(mapImportError(MapLocalImportError::InvalidRequest).status, 400);
    assert!(stagingName(1).contains("00000000-0000-0000-0000-000000000001"));
    let path = vec!["a".to_string(), "b".to_string()];
    assert_eq!(updateDirectoryRoot(true, &path, &None), Some(vec!["a".to_string()]));
    assert_eq!(updateDirectoryRoot(true, &path, &Some(vec!["x".to_string()])), None);
}

#[test]
fn directoriesAreImported() {
    let name = |text: &str| Some(text.to_string());
    let mut session = ImportSession::new();
    assert!(session.receiveImportFields(&name("path")).is_err());
    assert_eq!(session.receiveImportFields(&name("directory")).unwrap(), ImportField::Directory);
    assert!(session.takeDirectory("true").is_ok());
    for file in ["site/a.html", "site/b.html"] {
        assert_eq!(session.receiveImportFields(&name("path")).unwrap(), ImportField::Path);
        assert!(session.takePath(file).is_ok());
        assert_eq!(session.receiveImportFields(&name("file")).unwrap(), ImportField::File);
        assert!(session.beginFile().is_ok());
        assert!(session.writeImportedFile(10).is_ok());
    }
    assert!(session.takePath("SITE/A.html").is_err());
    let result = session.importMultipart(1).unwrap();
    assert_eq!((result.fileCount, result.totalBytes), (2, 20));
    assert!(result.localPath.ends_with("/site"));
    let mut large = ImportSession::new();
    assert!(large.takeDirectory("false").is_ok());
    assert!(large.takePath("a.bin").is_ok());
    assert!(large.beginFile().is_ok());
    assert!(large.writeImportedFile(67108864).is_ok());
    assert!(large.writeImportedFile(1).is_err());
    assert!(ImportSession::new().importMultipart(1).is_err());
    assert!(ImportSession::new().takeDirectory("maybe").is_err());
}

#[test]
fn newToolServerStartsFirst() {
    let off = McpConfiguration::default();
    assert_eq!((off.enabled, off.port), (false, 17891));
    let on = McpConfiguration { enabled: true, port: 9 };
    let mut manager = McpManager::new(on, Ok("http://127.0.0.1:9/mcp".to_string()));
    assert!(manager.publicState().running);
    assert_eq!(manager.replace(on).unwrap(), McpStep::Keep);
    let next = McpConfiguration { enabled: true, port: 10 };
    assert_eq!(manager.replace(next).unwrap(), McpStep::Start(10));
    assert_eq!(
        manager.settleStart(Some("taken".to_string())).unwrap_err().code,
        ErrorCode::ServiceStartFailed
    );
    assert_eq!(manager.settleStart(None).unwrap(), McpStep::Stop);
    assert_eq!(manager.settleStop(None).unwrap(), McpStep::Commit);
    assert_eq!(manager.commit(next, Some("new".to_string())), on);
    assert_eq!(manager.publicState().endpoint, Some("new".to_string()));
    assert_eq!(manager.replace(off).unwrap(), McpStep::Stop);
    assert_eq!(
        manager.replace(McpConfiguration { enabled: true, port: 0 }).unwrap_err().status,
        400
    );
    assert_eq!(
        manager.settleStop(Some("stuck".to_string())).unwrap_err().code,
        ErrorCode::ServiceStopFailed
    );
    assert!(replaceMcpConfiguration(off, None).is_ok());
    let rollback = replaceMcpConfiguration(off, Some("full".to_string())).unwrap_err();
    assert_eq!((rollback.restore, rollback.error.status), (off, 500));
    assert_eq!(rollback.error.code, ErrorCode::ConfigurationPersistenceFailed);
    let failed = McpManager::new(on, Err("no port".to_string()));
    assert_eq!(failed.publicState().lastError, Some("no port".to_string()));
}

#[test]
fn auxiliaryListenersMustNotClash() {
    let socks = Some(IpAddress::V4(0x7f00_0001));
    let check = |rules: &Vec<ListenRule>, forwards: &Vec<ListenRule>, httpEnabled: bool| {
        validateAuxiliaryListenerConfiguration(
            true,
            socks,
            1080,
            Some(IpAddress::V4(0x0a00_0001)),
            8080,
            httpEnabled,
            rules,
            forwards,
        )
        .map_err(|error| error.code)
    };
    let code = |endpoint: Option<Endpoint>, httpEnabled: bool| {
        let rules = vec![ListenRule { enabled: true, endpoint }];
        let off = vec![ListenRule { enabled: false, endpoint }];
        assert_eq!(check(&off, &off, httpEnabled), Ok(()));
        assert_eq!(check(&off, &rules, httpEnabled), check(&rules, &off, httpEnabled));
        check(&rules, &off, httpEnabled)
    };
    let at = |address: u32, port: u16| Some(Endpoint { address: IpAddress::V4(address), port });
    assert_eq!(code(at(0x7f00_0001, 9000), true), Ok(()));
    assert_eq!(
        code(at(0x7f00_0001, 1080), true),
        Err(ErrorCode::ListenerConfigurationConflict)
    );
    assert_eq!(code(at(0, 1080), true), Err(ErrorCode::ListenerConfigurationConflict));
    assert_eq!(code(at(0x0a00_0001, 8080), true), Err(ErrorCode::ListenerConfigurationConflict));
    assert_eq!(code(at(0x0a00_0001, 8080), false), Ok(()));
    assert_eq!(code(None, true), Err(ErrorCode::InvalidConfiguration));
    let both = [true, false, true].map(|enabled| ListenRule { enabled, endpoint: at(1, 2) }).to_vec();
    assert_eq!(listenEndpoints(&both, &both), vec![at(1, 2); 4]);
}

#[test]
fn oneCollectionIsReplaced() {
    let rules = AuxiliaryConfiguration { reverseProxies: vec![1], portForwards: "x" };
    let rules = rules.replaced(AuxiliaryChange::ReverseProxies(vec![2, 3]));
    assert_eq!((rules.reverseProxies.len(), rules.portForwards), (2, "x"));
    let rules = rules.replaced(AuxiliaryChange::PortForwards("y"));
    assert_eq!((rules.reverseProxies, rules.portForwards), (vec![2, 3], "y"));
}

#[test]
fn rulesArePublishedAfterStorage() {
    let mut replacement = ListenerReplacement::start(ServiceState::Running);
    let mut steps = vec![replacement.step];
    for _ in 0..4 {
        replacement = replacement.replaceAuxiliaryListeners(true);
        steps.push(replacement.step);
    }
    assert_eq!(
        steps,
        vec![
            ReplacementStep::Stop,
            ReplacementStep::Persist,
            ReplacementStep::Publish,
            ReplacementStep::Start,
            ReplacementStep::Done,
        ]
    );
    let refused = ListenerReplacement::start(ServiceState::Running)
        .replaceAuxiliaryListeners(true)
        .replaceAuxiliaryListeners(false)
        .replaceAuxiliaryListeners(true);
    assert_eq!(refused.step, ReplacementStep::Refused);
    assert!(!refused.published);
    assert_eq!(
        refused.refusal().unwrap().code,
        ErrorCode::ConfigurationPersistenceFailed
    );
    assert_eq!(
        ListenerReplacement::start(ServiceState::Stopped).step,
        ReplacementStep::Persist
    );
}

#[test]
fn capturedConnectionsKeepTheirRoute() {
    let target = OriginalTarget {
        address: "1.2.3.4".to_string(),
        port: 443,
        processId: 7,
        processName: Some("app".to_string()),
    };
    let tunnel = planTunnel(&target, Some("example.com".to_string()));
    assert_eq!((tunnel.targetHost.as_str(), tunnel.connectHost.as_str()), ("example.com", "1.2.3.4"));
    assert_eq!((tunnel.targetPort, tunnel.clientProcessId), (443, Some(7)));
    assert!(tunnel.routePinned && !tunnel.accountLease);
    assert_eq!(planTunnel(&target, None).targetHost, "1.2.3.4");
    assert!(claimsConnection(&Some(target)) && !claimsConnection(&None));
    assert_eq!(ConnectionStep::first(false), ConnectionStep::ServeHttp);
    let step = ConnectionStep::first(true).serve(ConnectionOutcome::Failed);
    assert_eq!(step, ConnectionStep::Connect);
    assert_eq!(step.serve(ConnectionOutcome::Failed), ConnectionStep::End);
    let intercept = step.serve(ConnectionOutcome::Succeeded);
    assert_eq!(intercept.serve(ConnectionOutcome::Raw), ConnectionStep::Relay);
    assert_eq!(
        intercept.serve(ConnectionOutcome::Failed),
        ConnectionStep::ReportClassification
    );
    assert_eq!(
        ConnectionStep::Relay.serve(ConnectionOutcome::Failed),
        ConnectionStep::ReportRelay
    );
}

#[test]
fn burstsArePublishedTogether() {
    let mut follower = Follower::new();
    assert_eq!(follower.forwardRuntimeEvents(FollowerEvent::Changed), FollowerAction::OpenWindow);
    assert_eq!(follower.forwardRuntimeEvents(FollowerEvent::Changed), FollowerAction::Wait);
    assert_eq!(follower.forwardRuntimeEvents(FollowerEvent::Lagged), FollowerAction::Wait);
    assert_eq!(follower.forwardRuntimeEvents(FollowerEvent::WindowEnded), FollowerAction::Publish);
    assert_eq!(follower.forwardRuntimeEvents(FollowerEvent::WindowEnded), FollowerAction::Wait);
    assert_eq!(follower.forwardRuntimeEvents(FollowerEvent::Closed), FollowerAction::End);
    assert_eq!(follower.phase, FollowerPhase::Ended);
    assert_eq!(follower.forwardRuntimeEvents(FollowerEvent::Changed), FollowerAction::End);
    let mut stopping = Follower::new();
    assert_eq!(stopping.forwardRuntimeEvents(FollowerEvent::Shutdown), FollowerAction::End);
    assert_eq!(projectionFor(FollowerEvent::Changed), SessionProjection::One);
    assert_eq!(projectionFor(FollowerEvent::Lagged), SessionProjection::All);
    assert_eq!(projectionFor(FollowerEvent::Closed), SessionProjection::Nothing);
}

#[test]
fn sessionsAreWrittenOldestFirst() {
    let sessions = vec![
        openSession(5, SessionState::Open),
        openSession(1, SessionState::Closed),
        openSession(5, SessionState::Failed),
    ];
    assert_eq!(projectSocksSessions(&sessions), vec![1, 0, 2]);
    assert!(!mayReleaseCapturedBytes(&sessions[0], true));
    assert!(mayReleaseCapturedBytes(&sessions[1], true));
    assert!(!mayReleaseCapturedBytes(&sessions[2], false));
}

#[test]
fn endsAreNoticed() {
    assert_eq!(drainRuntimeEventForwarder(DrainOutcome::TimedOut), DrainAction::Abort);
    assert_eq!(drainRuntimeEventForwarder(DrainOutcome::Crashed), DrainAction::Report);
    assert_eq!(drainRuntimeEventForwarder(DrainOutcome::Absent), DrainAction::Done);
    assert_eq!(drainRuntimeEventForwarder(DrainOutcome::Finished), DrainAction::Done);
    assert_eq!(waitForServerExit(ExitObservation::Running), None);
    assert_eq!(
        waitForServerExit(ExitObservation::Ended("e".to_string())),
        Some("e".to_string())
    );
    assert_eq!(
        waitForServerExit(ExitObservation::Lost),
        Some("SOCKS5 服务退出监控通道关闭".to_string())
    );
    assert!(waitForControlShutdown(true, false) && !waitForControlShutdown(false, false));
}
