#![allow(non_snake_case)]

use proxy_backend::controlApi::accountRecovery::configurationTransaction::{
    concludeAccountSwitch, mergeConfigurationTransactionError, AccountSwitch,
    AccountSwitchOutcomes, AccountSwitchStep, ClosingStep, ConfigurationSide,
    ConfigurationTransaction, StepOutcome, TransactionStep,
};
use proxy_backend::controlApi::accountRecovery::dataPlaneSteps::{
    prepareServiceStart, AuthoritativeConfiguration, ConfigurationTransactionSnapshot, ExitStep,
    PrimaryEvent, PrimaryStart, PrimaryStep, ServiceStop, StopEvent, StopStep,
};
use proxy_backend::controlApi::accountRecovery::serviceLifecycle::{
    auxiliaryNeeded, primaryDataPlaneCommitSucceeded, serviceStateCanEnterStop, AuxiliaryOutcome,
    LifecycleMoment, ManagedService, PrimaryOutcome, StopOutcomes, StopPlan,
};
use proxy_backend::controlApi::accountRecovery::{
    accountRecoveryMatchesCurrentConfiguration, accountRecoveryMayRestartProxy, localRuleServiceIp,
    nextAccountRecoveryDelay, AccountRecoveryMonitor, RecoveryAction, RecoveryObservation,
};
use proxy_backend::controlApi::accountServiceSupervisor::AccountServiceEndpoint;
use proxy_backend::controlApi::configuration::{
    AuthenticationMode, CredentialsUpdate, HttpProxyLimits, ManagedHttpProxyConfiguration,
    MultiAccountConfiguration, ProcessCaptureConfiguration, Socks5Config, Socks5Limits,
    Socks5Timeouts, UpstreamProxyConfiguration,
};
use proxy_backend::controlApi::httpControl::ApiError;
use proxy_backend::controlApi::listeners::{
    aggregateListenerErrors, copyListenerError, listenerError, listenerErrorMessage,
    listenerSnapshots, listenerState, ListenerState,
};
use proxy_backend::controlApi::metrics::{
    combineConcurrentMetrics, combineMetrics, currentMetrics, ServiceMetrics,
};
use proxy_backend::controlApi::serviceStartup::{
    stopAccountService, ServiceWishes, StartStep,
};
use proxy_backend::controlApi::serviceState::ServiceState;
use proxy_backend::controlApi::sessions::{
    combineSessions, settleSnapshot, visibleCopies, ServiceArchive, SessionSnapshot, SessionState,
};
use proxy_backend::controlApi::stateProjection::{
    projectionRevisionIsStable, recordingViewIsNew, snapshotIsConsistent, ProjectionRevisions,
};
use proxy_backend::localization::{CatalogEntry, ErrorCode, Locale, LocaleCatalog};
use proxy_backend::network::{Endpoint, HostAddress, IpAddress};

const everyCode: [ErrorCode; 53] = [
    ErrorCode::InvalidListenPort,
    ErrorCode::InvalidListenHost,
    ErrorCode::CredentialsForbiddenWithoutAuthentication,
    ErrorCode::CredentialsRequired,
    ErrorCode::TimeoutMustBePositiveFinite,
    ErrorCode::TimeoutOutOfRange,
    ErrorCode::TimeoutBelowMillisecond,
    ErrorCode::InvalidConfiguration,
    ErrorCode::ServiceNotStartable,
    ErrorCode::ServiceStartFailed,
    ErrorCode::ServiceNotStoppable,
    ErrorCode::ServiceStopFailed,
    ErrorCode::OriginForbidden,
    ErrorCode::InvalidConfigurationRequest,
    ErrorCode::InvalidHttpProxyConfiguration,
    ErrorCode::ListenerConfigurationConflict,
    ErrorCode::HttpProxyListenerFailed,
    ErrorCode::InvalidRecordingRequest,
    ErrorCode::InvalidRecordingLimits,
    ErrorCode::InvalidRecordingLocation,
    ErrorCode::RecordingOperationFailed,
    ErrorCode::InvalidSslRequest,
    ErrorCode::InvalidSslConfiguration,
    ErrorCode::SslOperationFailed,
    ErrorCode::InvalidTransactionsQuery,
    ErrorCode::TransactionsCollectionChanged,
    ErrorCode::TransactionNotFound,
    ErrorCode::BodyNotFound,
    ErrorCode::InvalidToolRequest,
    ErrorCode::ToolNotFound,
    ErrorCode::InvalidToolConfiguration,
    ErrorCode::ToolOperationFailed,
    ErrorCode::BreakpointNotFound,
    ErrorCode::BreakpointOperationFailed,
    ErrorCode::InvalidExportRequest,
    ErrorCode::ExportOperationFailed,
    ErrorCode::InvalidRepeatRequest,
    ErrorCode::RepeatBodyUnavailable,
    ErrorCode::UnsupportedRepeatTransaction,
    ErrorCode::RepeatRecordingUnavailable,
    ErrorCode::AdvancedRepeatConfirmationRequired,
    ErrorCode::InvalidAdvancedRepeatPlan,
    ErrorCode::LoadTestNotFound,
    ErrorCode::PluginNotFound,
    ErrorCode::PluginOperationFailed,
    ErrorCode::InvalidProcessSelectionRequest,
    ErrorCode::ProcessSelectionOperationFailed,
    ErrorCode::ConfigurationPersistenceFailed,
    ErrorCode::ClientNodeUnavailable,
    ErrorCode::ClientPackageAuthenticationFailed,
    ErrorCode::ClientPackageBusy,
    ErrorCode::ClientPackageOperationFailed,
    ErrorCode::ClientPackageServiceUnavailable,
];

fn startCatalogs() -> Vec<LocaleCatalog> {
    vec![LocaleCatalog {
        locale: Locale::En,
        entries: everyCode
            .iter()
            .map(|code| CatalogEntry {
                key: code.messageKey().to_string(),
                template: match code {
                    ErrorCode::ServiceStartFailed => "Start failed.".to_string(),
                    ErrorCode::HttpProxyListenerFailed => "HTTP listener failed.".to_string(),
                    _ => code.messageKey().to_string(),
                },
            })
            .collect(),
    }]
}

fn counters(value: u64) -> ServiceMetrics {
    ServiceMetrics {
        acceptedConnections: value,
        activeConnections: value,
        failedConnections: value,
        bytesUp: value,
        bytesDown: value,
        udpPacketsUp: value,
        udpPacketsDown: value,
        droppedUdpPackets: value,
    }
}

fn session(id: &str, state: SessionState, created: u64) -> SessionSnapshot {
    SessionSnapshot {
        sessionId: id.to_string(),
        state,
        createdAtMilliseconds: created,
        updatedAtMilliseconds: created,
        closedAtMilliseconds: 0,
        errorMessage: String::new(),
        capturedBytesUp: vec![1],
        capturedBytesDown: vec![2],
        capturedPackets: vec![vec![3]],
    }
}

#[test]
fn recoveryDelayDoublesUpToItsBound() {
    assert_eq!(nextAccountRecoveryDelay(1), 2);
    assert_eq!(nextAccountRecoveryDelay(16), 30);
    assert_eq!(nextAccountRecoveryDelay(30), 30);
    assert_eq!(nextAccountRecoveryDelay(u64::MAX), 30);
}

#[test]
fn ruleServiceIsReachedLocally() {
    assert_eq!(localRuleServiceIp(true, Some(IpAddress::V4(0))), Some(IpAddress::V4(0x7f00_0001)));
    assert_eq!(localRuleServiceIp(true, Some(IpAddress::V6(0))), Some(IpAddress::V6(1)));
    assert_eq!(
        localRuleServiceIp(true, Some(IpAddress::V4(0x0a00_0001))),
        Some(IpAddress::V4(0x0a00_0001))
    );
    assert_eq!(localRuleServiceIp(false, Some(IpAddress::V4(0))), None);
    assert_eq!(localRuleServiceIp(true, None), None);
}

#[test]
fn recoveryBringsTheProxyBackOnlyOnIntent() {
    let (on, off) = (remoteEntry(true), remoteEntry(false));
    assert!(accountRecoveryMatchesCurrentConfiguration(3, 3, &on, &remoteEntry(true)));
    assert!(!accountRecoveryMatchesCurrentConfiguration(3, 4, &on, &on));
    assert!(!accountRecoveryMatchesCurrentConfiguration(3, 3, &on, &off));
    assert!(!accountRecoveryMayRestartProxy(false, 3, 3));
    let lost = RecoveryObservation {
        healthy: false,
        matchesCurrent: true,
        generation: 3,
        enabled: true,
        serviceRunIntent: true,
        proxyRunning: true,
    };
    let mut monitor = AccountRecoveryMonitor::new();
    assert_eq!(monitor.afterHealthCheck(true), RecoveryAction::Wait);
    assert_eq!(monitor.afterHealthCheck(false), RecoveryAction::Recheck);
    assert_eq!(monitor.decide(lost), RecoveryAction::StopProxy);
    assert_eq!(monitor.afterStopProxy(true, lost), RecoveryAction::RestartAccountService);
    assert_eq!(monitor.pending, Some(3));
    assert_eq!(monitor.afterAccountServiceRestart(false, true, true), RecoveryAction::Wait);
    assert_eq!(monitor.delaySeconds, 2);
    let back = RecoveryObservation { healthy: true, ..lost };
    assert_eq!(monitor.decide(back), RecoveryAction::StartProxy);
    assert_eq!(monitor.afterStartProxy(false), RecoveryAction::Wait);
    assert_eq!(monitor.delaySeconds, 4);
    let unwanted = RecoveryObservation { serviceRunIntent: false, ..back };
    assert_eq!(monitor.decide(unwanted), RecoveryAction::Wait);
    assert_eq!(monitor, AccountRecoveryMonitor::new());
}

#[test]
fn changedConfigurationCancelsRecovery() {
    let mut monitor = AccountRecoveryMonitor { pending: Some(2), delaySeconds: 8 };
    let changed = RecoveryObservation {
        healthy: false,
        matchesCurrent: false,
        generation: 3,
        enabled: true,
        serviceRunIntent: true,
        proxyRunning: false,
    };
    assert_eq!(monitor.decide(changed), RecoveryAction::Wait);
    assert_eq!(monitor.pending, None);
    assert_eq!(monitor.delaySeconds, 1);
}

fn remoteEntry(enabled: bool) -> MultiAccountConfiguration {
    MultiAccountConfiguration { enabled, remoteHost: "0.0.0.0".to_string(), remotePort: 18080 }
}

fn replacement(service: ServiceState, accountServiceChanged: bool) -> ConfigurationTransaction {
    ConfigurationTransaction::replaceConfiguration(
        service,
        &remoteEntry(accountServiceChanged),
        &remoteEntry(false),
    )
}

fn snapshot(enabled: bool, port: u16) -> ConfigurationTransactionSnapshot {
    let host = || HostAddress { address: IpAddress::V4(0x7f00_0001), text: "127.0.0.1".to_string() };
    ConfigurationTransactionSnapshot {
        socks5: Socks5Config {
            listenHost: host(),
            listenPort: port,
            authenticationMode: AuthenticationMode::UsernamePassword,
            users: vec![CredentialsUpdate {
                username: "name".to_string(),
                password: "word".to_string(),
            }],
            timeouts: Socks5Timeouts { connect: 1, bind: 2, idle: 3, shutdown: 4, read: 5 },
            limits: Socks5Limits { maxConnections: 1, relayBufferSize: 2, udpMaxPacketSize: 3 },
            udpBindHost: String::new(),
            udpRemoteLimit: 4,
            sessionHistoryLimit: 5,
        },
        http: ManagedHttpProxyConfiguration {
            enabled: true,
            listenHost: host(),
            listenPort: port,
            limits: HttpProxyLimits {
                maxConnections: 1,
                maxHeaderBytes: 2,
                maxCaptureBodyBytes: 3,
                connectTimeoutMilliseconds: 4,
                requestTimeoutMilliseconds: 5,
                headerReadTimeoutMilliseconds: 6,
                shutdownTimeoutMilliseconds: 7,
            },
            upstreamProxy: UpstreamProxyConfiguration {
                enabled: false,
                protocol: "http".to_string(),
                host: String::new(),
                port: 0,
                username: String::new(),
                password: String::new(),
            },
        },
        processCapture: ProcessCaptureConfiguration {
            enabled: true,
            processIds: vec![7],
            proxyPort: 0,
            proxyAddress: IpAddress::V4(0),
        },
        multiAccount: remoteEntry(enabled),
        startServiceOnLaunch: true,
    }
}

#[test]
fn accountServiceDecidesWhoMayUseTheProxy() {
    let endpoint = AccountServiceEndpoint {
        internalEndpoint: "http://127.0.0.1:1".to_string(),
        internalToken: "token".to_string(),
        serviceInstanceId: "instance".to_string(),
    };
    let plain = prepareServiceStart(snapshot(false, 1080), None, &endpoint);
    assert_eq!(plain.socks5.authenticationMode, AuthenticationMode::UsernamePassword);
    assert_eq!(plain.socks5.users.len(), 1);
    assert!(plain.accountService.is_none());
    assert_eq!(plain.processCapture.proxyPort, 1080);
    let mut plan =
        prepareServiceStart(snapshot(false, 1080), Some(snapshot(true, 1090)), &endpoint);
    assert_eq!(plan.socks5.authenticationMode, AuthenticationMode::AccountService);
    assert!(plan.socks5.users.is_empty());
    assert_eq!(plan.processCapture.proxyPort, 1090);
    let client = plan.accountService.as_ref().unwrap();
    assert_eq!(
        (client.internalToken.as_str(), client.synchronizationIntervalMilliseconds),
        ("token", 2000)
    );
    plan.leadCapture(Endpoint { address: IpAddress::V4(5), port: 6 });
    assert_eq!((plan.processCapture.proxyAddress, plan.processCapture.proxyPort), (IpAddress::V4(5), 6));
}

#[test]
fn changedAccountServiceBeginsAGeneration() {
    let mut memory = AuthoritativeConfiguration {
        current: snapshot(false, 1),
        multiAccountGeneration: u64::MAX,
    };
    memory.commitConfigurationMemory(snapshot(false, 2), false);
    assert_eq!(memory.multiAccountGeneration, u64::MAX);
    memory.restoreConfigurationMemoryAndPublish(snapshot(true, 3));
    assert_eq!((memory.multiAccountGeneration, memory.current.socks5.listenPort), (0, 3));
    let stored = memory.current.persistedConfiguration();
    assert_eq!(stored.listenPort, 3);
    assert_eq!(stored.credentials.unwrap().password, "word");
}

#[test]
fn dataPlaneIsTakenDownInOrder() {
    let mut stop = ServiceStop::begin();
    let mut steps = Vec::new();
    while stop.step != StopStep::Down {
        steps.push(stop.step);
        let event = match stop.step {
            StopStep::StopCapture | StopStep::DrainRecording | StopStep::FlushMirror => {
                StopEvent::Failed("x".to_string())
            }
            StopStep::StopListeners => StopEvent::Listeners {
                socks5: Some("s".to_string()),
                auxiliary: None,
            },
            _ => StopEvent::Succeeded,
        };
        stop = stop.stopServiceExclusiveWithEvents(event);
    }
    let at = |step| steps.iter().position(|other| *other == step).unwrap();
    assert_eq!(steps.len(), 11);
    assert!(at(StopStep::StopCapture) < at(StopStep::StopListeners));
    assert!(at(StopStep::StopListeners) < at(StopStep::FlushMirror));
    assert_eq!(stop.outcomes.processCapture, Some("x".to_string()));
    assert_eq!(stop.outcomes.udpRecording, Some("x".to_string()));
    assert_eq!(stop.outcomes.socks5, Some("s".to_string()));
    assert!(stop.outcomes.auxiliary.is_none() && stop.outcomes.mirrorFailed);
}

#[test]
fn lostDataPlaneIsClearedAwayInOrder() {
    let mut step = ExitStep::AwaitTurn;
    let mut count = 0;
    while step != ExitStep::Done {
        step = step.handleUnexpectedServerExit(true);
        count += 1;
    }
    assert_eq!(count, 13);
    assert_eq!(ExitStep::Notice.handleUnexpectedServerExit(false), ExitStep::Done);
    assert_eq!(
        ExitStep::DrainSessions.handleUnexpectedServerExit(true),
        ExitStep::ArchiveSessions
    );
}

#[test]
fn primaryListenerIsWholeOrGone() {
    let mut up = PrimaryStart::begin();
    while up.step != PrimaryStep::Up {
        let event = if up.step == PrimaryStep::Listen {
            PrimaryEvent::Listening("127.0.0.1:1".to_string())
        } else {
            PrimaryEvent::Succeeded
        };
        up = up.startPrimaryDataPlane(event);
    }
    assert!(matches!(
        up.conclude(),
        PrimaryOutcome::Running { boundEndpoint, hasUdpRecording: true } if boundEndpoint == "127.0.0.1:1"
    ));
    let mut failed = PrimaryStart::begin();
    let mut steps = Vec::new();
    while failed.step != PrimaryStep::GivenUp {
        steps.push(failed.step);
        failed = match failed.step {
            PrimaryStep::Listen => {
                failed.startPrimaryDataPlane(PrimaryEvent::Listening("e".to_string()))
            }
            PrimaryStep::StartCapture => {
                failed.startPrimaryDataPlane(PrimaryEvent::Failed("driver".to_string()))
            }
            _ => failed.startPrimaryDataPlane(PrimaryEvent::Succeeded),
        };
    }
    assert_eq!(
        steps[steps.len() - 3..],
        [PrimaryStep::DetachSink, PrimaryStep::DrainRecording, PrimaryStep::StopListener]
    );
    assert!(failed.endpoint.is_none() && !failed.recording && !failed.sinkAttached);
    assert!(matches!(
        failed.conclude(),
        PrimaryOutcome::CaptureFailed(detail) if detail == "driver"
    ));
    let broken = PrimaryStart::begin().startPrimaryDataPlane(PrimaryEvent::Failed(String::new()));
    assert!(matches!(broken.conclude(), PrimaryOutcome::HandlersFailed));
}

#[test]
fn endedTransactionsAreClosed() {
    let mut refused = replacement(ServiceState::Running, true);
    refused.advance(StepOutcome::Error {
        error: ApiError::internal(ErrorCode::ServiceStopFailed),
        message: "stuck".to_string(),
    });
    assert_eq!(refused.step, TransactionStep::Refused);
    assert_eq!(refused.closing(), vec![ClosingStep::LowerBarrier]);
    assert_eq!(refused.conclude().unwrap_err().code, ErrorCode::ServiceStopFailed);
    let mut quiet = replacement(ServiceState::Stopped, false);
    quiet.advance(StepOutcome::Done);
    quiet.advance(StepOutcome::Done);
    assert_eq!(quiet.step, TransactionStep::Succeeded);
    assert_eq!(quiet.closing(), vec![ClosingStep::LowerBarrier]);
}

#[test]
fn transactionCommitsTheCandidate() {
    let mut transaction = replacement(ServiceState::Running, true);
    let mut steps = Vec::new();
    while transaction.step != TransactionStep::Succeeded {
        steps.push(transaction.step);
        transaction.advance(StepOutcome::Done);
    }
    assert_eq!(
        steps,
        vec![
            TransactionStep::StopService,
            TransactionStep::SwitchAccountService,
            TransactionStep::Persist,
            TransactionStep::StartCandidate,
            TransactionStep::CommitCandidate,
        ]
    );
    assert_eq!(transaction.disk, ConfigurationSide::Candidate);
    assert_eq!(transaction.memory, ConfigurationSide::Candidate);
    assert_eq!(transaction.running, Some(ConfigurationSide::Candidate));
    assert_eq!(transaction.closing().len(), 3);
    assert_eq!(transaction.closing()[0], ClosingStep::PublishServiceState);
    assert!(transaction.conclude().is_ok());
}

#[test]
fn failedCandidateIsRolledBack() {
    let mut transaction = replacement(ServiceState::Faulted, false);
    while transaction.step != TransactionStep::StartCandidate {
        transaction.advance(StepOutcome::Done);
    }
    transaction.advance(StepOutcome::Error {
        error: ApiError::internal(ErrorCode::ServiceStartFailed),
        message: "port taken".to_string(),
    });
    let mut steps = Vec::new();
    while transaction.step != TransactionStep::Failed {
        steps.push(transaction.step);
        transaction.advance(StepOutcome::Done);
    }
    assert_eq!(
        steps,
        vec![
            TransactionStep::StopForRollback,
            TransactionStep::RestoreFile,
            TransactionStep::SwitchAccountServiceBack,
            TransactionStep::RestoreMemory,
            TransactionStep::RestartPrevious,
        ]
    );
    assert_eq!(transaction.disk, ConfigurationSide::Previous);
    assert_eq!(transaction.running, Some(ConfigurationSide::Previous));
    let error = transaction.conclude().unwrap_err();
    assert_eq!((error.status, error.code), (500, ErrorCode::ServiceStartFailed));
}

#[test]
fn unrestorableFileKeepsTheCandidate() {
    let failure = |message: &str| StepOutcome::Error {
        error: ApiError::internal(ErrorCode::ConfigurationPersistenceFailed),
        message: message.to_string(),
    };
    let mut transaction = replacement(ServiceState::Faulted, false);
    while transaction.step != TransactionStep::StartCandidate {
        transaction.advance(StepOutcome::Done);
    }
    transaction.advance(failure("no start"));
    transaction.advance(StepOutcome::Done);
    assert_eq!(transaction.step, TransactionStep::RestoreFile);
    transaction.advance(failure("disk"));
    assert_eq!(transaction.step, TransactionStep::AdoptCandidate);
    transaction.advance(StepOutcome::Done);
    assert_eq!(transaction.step, TransactionStep::RestartCandidate);
    transaction.advance(StepOutcome::Done);
    assert_eq!(transaction.step, TransactionStep::Failed);
    assert_eq!(transaction.disk, ConfigurationSide::Candidate);
    assert_eq!(transaction.memory, ConfigurationSide::Candidate);
    assert_eq!(transaction.restoreErrors, vec!["恢复配置文件失败：disk".to_string()]);
    assert!(transaction.conclude().is_err());
}

#[test]
fn rollbackTroubleIsAddedToTheAnswer() {
    let plain = mergeConfigurationTransactionError(
        ApiError::internal(ErrorCode::ServiceStartFailed),
        "first".to_string(),
        &vec![],
    );
    assert_eq!(plain.params.entries.len(), 0);
    let merged = mergeConfigurationTransactionError(
        ApiError::internal(ErrorCode::ServiceStartFailed),
        "first".to_string(),
        &vec!["second".to_string(), "third".to_string()],
    );
    let detail = &merged.params.entries[0];
    assert_eq!(detail.name, "detail");
    assert!(detail.value.contains("first") && detail.value.contains("second"));
    assert!(detail.value.contains("third"));
}

#[test]
fn accountSwitchReportsWhatFailed() {
    let outcomes = |stop: Option<&str>, start: Option<&str>, restore: Option<&str>| {
        AccountSwitchOutcomes {
            stop: stop.map(str::to_string),
            startTarget: start.map(str::to_string),
            restoreSource: restore.map(str::to_string),
        }
    };
    assert!(concludeAccountSwitch(outcomes(None, None, None)).is_ok());
    assert!(concludeAccountSwitch(outcomes(Some("s"), None, None)).is_err());
    let failed = concludeAccountSwitch(outcomes(None, Some("no port"), Some("gone"))).unwrap_err();
    assert!(failed.params.entries[0].value.contains("no port"));
    assert!(failed.params.entries[0].value.contains("gone"));
}

#[test]
fn eventsGoOutOnlyWhenAsked() {
    let shown = |moment: LifecycleMoment, publish: bool| {
        let announced = moment.announcements(publish);
        (announced.serviceState, announced.runtimeViews)
    };
    for moment in [LifecycleMoment::Begun, LifecycleMoment::Settled, LifecycleMoment::Ended] {
        assert_eq!(shown(moment, false), (false, false));
    }
    assert_eq!(shown(LifecycleMoment::Unchanged, true), (false, false));
    assert_eq!(shown(LifecycleMoment::Begun, true), (true, false));
    assert_eq!(shown(LifecycleMoment::Settled, true), (true, false));
    assert_eq!(shown(LifecycleMoment::Ended, true), (true, true));
    let nothing = || Ok(StopPlan::Nothing);
    let ofStop = LifecycleMoment::ofStop;
    assert_eq!(ofStop(ServiceState::Stopped, &nothing()), LifecycleMoment::Unchanged);
    assert_eq!(ofStop(ServiceState::Faulted, &nothing()), LifecycleMoment::Settled);
    let refused = Err(ApiError::conflict(ErrorCode::ServiceNotStoppable));
    assert_eq!(ofStop(ServiceState::Starting, &refused), LifecycleMoment::Unchanged);
    let plan = StopPlan::TakeDown { listener: true, auxiliary: false, udpRecording: true };
    assert_eq!(ofStop(ServiceState::Running, &Ok(plan)), LifecycleMoment::Begun);
}

#[test]
fn accountServiceMovesInOrder() {
    let at = |remotePort: u16| MultiAccountConfiguration {
        enabled: true,
        remoteHost: "127.0.0.1".to_string(),
        remotePort,
    };
    let unchanged = AccountSwitch::switchAccountService(&at(1), &at(1));
    assert_eq!(unchanged.step, AccountSwitchStep::Done);
    assert!(concludeAccountSwitch(unchanged.outcomes).is_ok());
    let moved = AccountSwitch::switchAccountService(&at(1), &at(2));
    assert_eq!(moved.step, AccountSwitchStep::Stop);
    let moved = moved.advance(Some("stuck".to_string()));
    assert_eq!(moved.step, AccountSwitchStep::StartTarget);
    let moved = moved.advance(None);
    assert_eq!(moved.step, AccountSwitchStep::Done);
    let error = concludeAccountSwitch(moved.outcomes).unwrap_err();
    assert_eq!(error.code, ErrorCode::ServiceStopFailed);
    let failed = AccountSwitch::switchAccountService(&at(1), &at(2))
        .advance(None)
        .advance(Some("no port".to_string()));
    assert_eq!(failed.step, AccountSwitchStep::RestoreSource);
    let failed = failed.advance(Some("gone".to_string()));
    assert_eq!(failed.step, AccountSwitchStep::Done);
    let error = concludeAccountSwitch(failed.outcomes).unwrap_err();
    assert_eq!(error.code, ErrorCode::ServiceStartFailed);
    assert_eq!(error.params.entries[0].value, "no port; 恢复原账号服务失败：gone");
}

#[test]
fn serviceStartsStopsAndStartsAgain() {
    let catalogs = startCatalogs();
    let mut service = ManagedService::new();
    assert!(service.beginStart().is_ok());
    assert_eq!(service.state, ServiceState::Starting);
    assert_eq!(service.beginStart().unwrap_err().code, ErrorCode::ServiceNotStartable);
    assert!(service
        .finishStart(
            PrimaryOutcome::Running {
                boundEndpoint: "127.0.0.1:1080".to_string(),
                hasUdpRecording: true,
            },
            AuxiliaryOutcome::Failed("portTaken".to_string()),
            &catalogs,
        )
        .is_ok());
    assert_eq!(service.state, ServiceState::Running);
    assert_eq!(service.errorMessage, Some("[auxiliary] portTaken".to_string()));
    let listeners = service.listeners(false);
    assert_eq!(listeners.socks5.state, ListenerState::Running);
    assert_eq!(listeners.httpProxy.state, ListenerState::Disabled);
    assert_eq!(listeners.socks5.boundEndpoint, Some("127.0.0.1:1080".to_string()));
    assert!(matches!(
        service.beginStop(),
        Ok(StopPlan::TakeDown { listener: true, auxiliary: false, udpRecording: true })
    ));
    assert!(service
        .finishStop(
            StopOutcomes {
                processCapture: None,
                udpRecording: None,
                socks5: None,
                auxiliary: None,
                mirrorFailed: false,
            },
            &catalogs,
        )
        .is_ok());
    assert_eq!(service.state, ServiceState::Stopped);
    assert!(matches!(service.beginStop(), Ok(StopPlan::Nothing)));
    assert!(service.beginStart().is_ok());
}

#[test]
fn failedListenerFaultsTheService() {
    let catalogs = startCatalogs();
    let mut service = ManagedService::new();
    assert!(service.beginStart().is_ok());
    let error = service
        .finishStart(PrimaryOutcome::ListenFailed, AuxiliaryOutcome::NotNeeded, &catalogs)
        .unwrap_err();
    assert_eq!((error.status, error.code), (500, ErrorCode::ServiceStartFailed));
    assert_eq!(error.params.entries[0].value, "[socks5] Start failed.");
    assert_eq!(service.state, ServiceState::Faulted);
    assert_eq!(service.socksError.as_ref().unwrap().code, "socks5StartFailed");
    let mut captured = ManagedService::new();
    assert!(captured.beginStart().is_ok());
    assert!(captured
        .finishStart(
            PrimaryOutcome::CaptureFailed("driver".to_string()),
            AuxiliaryOutcome::NotNeeded,
            &catalogs,
        )
        .is_err());
    assert_eq!(captured.errorMessage, Some("[processCapture] driver".to_string()));
    let mut account = ManagedService::new();
    assert!(account.beginStart().is_ok());
    let error = account.commitAccountServiceStartFailure("no database".to_string());
    assert_eq!(error.params.entries[0].value, "no database");
    assert_eq!(account.state, ServiceState::Faulted);
}

#[test]
fn failedStopIsTold() {
    let catalogs = startCatalogs();
    let mut service = ManagedService::new();
    assert!(service.beginStart().is_ok());
    assert!(service
        .finishStart(
            PrimaryOutcome::Running {
                boundEndpoint: "127.0.0.1:1080".to_string(),
                hasUdpRecording: false,
            },
            AuxiliaryOutcome::Started,
            &catalogs,
        )
        .is_ok());
    assert!(matches!(
        service.beginStop(),
        Ok(StopPlan::TakeDown { listener: true, auxiliary: true, udpRecording: false })
    ));
    let error = service
        .finishStop(
            StopOutcomes {
                processCapture: None,
                udpRecording: None,
                socks5: Some("still bound".to_string()),
                auxiliary: None,
                mirrorFailed: false,
            },
            &catalogs,
        )
        .unwrap_err();
    assert_eq!((error.status, error.code), (500, ErrorCode::ServiceStopFailed));
    assert!(error.params.entries[0].value.contains("still bound"));
    assert_eq!(service.state, ServiceState::Faulted);
}

#[test]
fn unexpectedExitIsNoticedOnce() {
    let catalogs = startCatalogs();
    let mut service = ManagedService::new();
    assert!(!service.noticeUnexpectedExit(&catalogs));
    assert!(service.beginStart().is_ok());
    assert!(service
        .finishStart(
            PrimaryOutcome::Running {
                boundEndpoint: "127.0.0.1:1080".to_string(),
                hasUdpRecording: false,
            },
            AuxiliaryOutcome::NotNeeded,
            &catalogs,
        )
        .is_ok());
    assert!(service.noticeUnexpectedExit(&catalogs));
    assert_eq!(service.state, ServiceState::Faulted);
    assert!(!service.noticeUnexpectedExit(&catalogs));
    service.releaseExitedCaptureGeneration(true);
    assert!(!service.hasCaptureGeneration);
}

#[test]
fn primaryListenerAloneDecides() {
    assert!(auxiliaryNeeded(true, true, false));
    assert!(!auxiliaryNeeded(false, true, true));
    assert!(!auxiliaryNeeded(true, false, false));
    assert!(primaryDataPlaneCommitSucceeded(true, false));
    assert!(!primaryDataPlaneCommitSucceeded(false, true));
    assert!(serviceStateCanEnterStop(ServiceState::Running));
    assert!(serviceStateCanEnterStop(ServiceState::Faulted));
    assert!(!serviceStateCanEnterStop(ServiceState::Starting));
    assert!(!serviceStateCanEnterStop(ServiceState::Stopping));
}

#[test]
fn listenersShowTheirState() {
    assert_eq!(listenerState(false, true, true), ListenerState::Disabled);
    assert_eq!(listenerState(true, true, true), ListenerState::Running);
    assert_eq!(listenerState(true, false, true), ListenerState::Failed);
    assert_eq!(listenerState(true, false, false), ListenerState::Stopped);
    let catalogs = startCatalogs();
    let http = listenerError("httpProxyBindFailed", "error.httpProxyListenerFailed");
    assert_eq!(listenerErrorMessage(&http, &catalogs), "HTTP listener failed.");
    let socks = listenerError("socks5StartFailed", "error.serviceStartFailed");
    assert_eq!(listenerErrorMessage(&socks, &catalogs), "Start failed.");
    assert_eq!(
        aggregateListenerErrors(&Some(socks), &catalogs),
        Some("[socks5] Start failed.".to_string())
    );
    assert_eq!(aggregateListenerErrors(&None, &catalogs), None);
    let copied = copyListenerError(&Some(http));
    let shown = listenerSnapshots(&None, &copied, true);
    assert_eq!(shown.httpProxy.state, ListenerState::Failed);
    assert_eq!(shown.httpProxy.error.unwrap().code, "httpProxyBindFailed");
}

#[test]
fn metricsAreCombined() {
    let combined = combineMetrics(&counters(5), &counters(2));
    assert_eq!(combined.bytesUp, 7);
    assert_eq!(combined.activeConnections, 2);
    assert_eq!(combineConcurrentMetrics(&counters(5), &counters(2)).activeConnections, 7);
    assert_eq!(combineMetrics(&counters(u64::MAX), &counters(2)).bytesDown, u64::MAX);
    let visible = currentMetrics(&counters(1), Some(counters(2)), Some(counters(4)));
    assert_eq!((visible.bytesUp, visible.activeConnections), (7, 6));
    assert_eq!(currentMetrics(&counters(1), None, None).activeConnections, 0);
}

#[test]
fn archivingHttpCountersKeepsTheSum() {
    let before = currentMetrics(&counters(1), None, Some(counters(4)));
    let archive = combineMetrics(&counters(1), &counters(4));
    let after = currentMetrics(&archive, None, None);
    assert_eq!(before.bytesUp, after.bytesUp);
    assert_eq!(before.failedConnections, after.failedConnections);
}

#[test]
fn newestEndedSessionsAreKept() {
    let archived = vec![
        session("a", SessionState::Closed, 1),
        session("b", SessionState::Failed, 5),
    ];
    let current = vec![
        session("c", SessionState::Open, 0),
        session("d", SessionState::Closed, 3),
    ];
    assert_eq!(combineSessions(&archived, &current, 2), vec![1, 3, 2]);
    assert_eq!(combineSessions(&archived, &current, 0), vec![2]);
    assert_eq!(combineSessions(&archived, &current, 10), vec![1, 3, 0, 2]);
}

#[test]
fn openSessionsFailWithTheirDataPlane() {
    let ended = || {
        vec![session("a", SessionState::Open, 1), session("b", SessionState::Closed, 2)]
    };
    let (sessions, metrics) = settleSnapshot(ended(), counters(3), 99);
    assert_eq!(sessions[0].state, SessionState::Failed);
    assert_eq!(sessions[0].closedAtMilliseconds, 99);
    assert_eq!(sessions[0].errorMessage, "数据面结束时会话任务未发布最终状态");
    assert_eq!(sessions[1].state, SessionState::Closed);
    assert_eq!(sessions[1].closedAtMilliseconds, 0);
    assert!(sessions.iter().all(|s| s.capturedBytesUp.is_empty() && s.capturedPackets.is_empty()));
    assert_eq!((metrics.failedConnections, metrics.activeConnections), (4, 0));
    let mut archive = ServiceArchive { sessions: vec![], metrics: counters(10) };
    archive.archiveRuntimeSnapshot(ended(), counters(3), 99, 1);
    assert_eq!(archive.metrics.failedConnections, 14);
    assert_eq!(archive.metrics.activeConnections, 0);
    assert_eq!(archive.metrics.bytesUp, 13);
    assert_eq!(archive.sessions.len(), 1);
    assert_eq!(archive.sessions[0].sessionId, "b");
    archive.archiveHttpRuntimeMetrics(Some(counters(2)));
    archive.archiveHttpRuntimeMetrics(None);
    assert_eq!(archive.metrics.bytesUp, 15);
    assert!(archive.clearSessions(true));
    assert!(archive.sessions.is_empty());
    assert_eq!(ServiceArchive::new().metrics, ServiceMetrics::default());
    let copies = visibleCopies(&ended(), &vec![], 5);
    assert_eq!((copies[0].sessionId.as_str(), copies[1].sessionId.as_str()), ("b", "a"));
}

#[test]
fn revisionsMoveWithPublications() {
    let mut revisions = ProjectionRevisions { revision: 4, generation: 2 };
    assert_eq!(revisions.publishEventLocked(), 5);
    assert_eq!(revisions.generation, 2);
    assert_eq!(revisions.publishProjectionRevisioned(), 6);
    assert_eq!((revisions.generation, revisions.currentRevision()), (3, 6));
    assert!(revisions.publishRuntimeViews(2).is_none());
    let views = revisions.publishRuntimeViews(3).unwrap();
    assert_eq!((views.sessions, views.metrics, views.processCapture), (7, 8, 9));
    let mut published = 4;
    assert!(revisions.publishRecordingViews(4, &mut published).is_none());
    let recording = revisions.publishRecordingViews(6, &mut published).unwrap();
    assert_eq!((recording.recording, recording.transactions, published), (10, 11, 6));
    let mut last = ProjectionRevisions { revision: 0, generation: u64::MAX };
    last.publishProjectionRevisioned();
    assert_eq!(last.generation, 0);
    assert!(projectionRevisionIsStable(3, 3) && !projectionRevisionIsStable(3, 4));
    assert!(snapshotIsConsistent(3, 3, false));
    assert!(!snapshotIsConsistent(3, 3, true));
    assert!(!snapshotIsConsistent(3, 4, false));
    assert!(recordingViewIsNew(5, 4) && !recordingViewIsNew(4, 4));
}

#[test]
fn startOnRequestIsSeenWhole() {
    let mut wishes = ServiceWishes {
        serviceRunIntent: false,
        startServiceOnLaunch: false,
        shutdown: false,
    };
    assert_eq!(wishes.startServiceIfConfigured(), None);
    assert!(!wishes.serviceRunIntent);
    let mut start = wishes.startService();
    assert!(wishes.serviceRunIntent);
    let mut hidden = Vec::new();
    while start.step != StartStep::Report {
        if start.barrierRaised {
            hidden.push(start.step);
        }
        start = start.advance(false);
    }
    assert_eq!(
        hidden,
        vec![
            StartStep::RefreshProcesses,
            StartStep::StartDataPlane,
            StartStep::PublishConfiguration,
            StartStep::PublishServiceState,
            StartStep::LowerBarrier,
        ]
    );
    assert_eq!(start.started, Some(false));
    wishes.stopService();
    assert!(!wishes.serviceRunIntent);
    wishes.beginShutdown();
    assert!(wishes.shutdown);
    wishes.startServiceOnLaunch = true;
    assert_eq!(wishes.startServiceIfConfigured().unwrap().step, StartStep::AwaitTurn);
}

#[test]
fn accountServiceStopFailureIsAnswered() {
    assert!(stopAccountService(None).is_ok());
    let error = stopAccountService(Some("busy".to_string())).unwrap_err();
    assert_eq!((error.status, error.code), (500, ErrorCode::ServiceStopFailed));
    assert_eq!(error.params.entries[0].value, "busy");
}
