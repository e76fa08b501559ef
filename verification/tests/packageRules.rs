#![allow(non_snake_case)]

use proxy_backend::controlApi::clientPackageControl::download::{
    beginDownload, checkIcon, downloadGeneratedClientPackage, downloadHeaders,
    normalizeClientPackageCustomization, normalizeOptionalText, ClientPackageDownloadRequest,
    DownloadOutcome, DownloadStep,
};
use proxy_backend::controlApi::clientPackageControl::nodeAddress::{
    clientRulesUrl, isPublicClientNodeAddress, parsePublicClientNodeAddress,
    resolvePackagedNodeHost, FixedHost, NodeHostPlan,
};
use proxy_backend::controlApi::clientPackageControl::packageIdentity::{
    isValidApplicationId, isValidApplicationName, legacyApplicationName, metadataFileName,
    packageFileName, randomApplicationId, randomApplicationName, randomAsciiWord,
};
use proxy_backend::controlApi::clientPackageControl::packagerProcess::{
    classifyEntry, cleanupFailedClientPackage, concludeFailedRun, executeClientPackager,
    exitedPackagerError, packageCleanupResult, readClientPackagerOutput,
    removeOrphanedPackageFiles, resolveClientPackagerExecutable, resolveClientTemplatePath, runClientPackager,
    terminateClientPackager, terminateSpawnedPackager, transientPackageFiles, PackageEntry,
    PackagerOutput, RemovalOutcome,
};
use proxy_backend::controlApi::clientPackageControl::{
    buildClientPackage, loadArtifacts, retryTemporaryPackageCleanup, validateStoredArtifact,
    BuildFailure, CleanupStep, ClientPackageArtifact, ClientPackageBuildError, ClientPackageStage,
    ClientPackageState,
};
use proxy_backend::controlApi::dataDirectory::PathStyle;
use proxy_backend::localization::ErrorCode;
use proxy_backend::network::{HostAddress, IpAddress};

const sampleId: u128 = 0x0123_4567_89ab_cdef_0123_4567_89ab_cdef;

fn artifact(id: u128, created: u64) -> ClientPackageArtifact {
    ClientPackageArtifact {
        id,
        applicationId: "org.example.app".to_string(),
        applicationName: "Example".to_string(),
        createdAtMilliseconds: created,
        fileName: packageFileName(id),
        sizeBytes: 3,
        sha256: "ab".repeat(32),
    }
}

fn idle(packages: Vec<ClientPackageArtifact>) -> ClientPackageState {
    ClientPackageState { activeJob: None, packages, operationActive: false }
}

fn request(id: Option<&str>, name: Option<&str>, icon: Option<&str>) -> ClientPackageDownloadRequest {
    ClientPackageDownloadRequest {
        username: "user".to_string(),
        password: "secret".to_string(),
        applicationId: id.map(str::to_string),
        applicationName: name.map(str::to_string),
        iconBase64: icon.map(str::to_string),
    }
}

#[test]
fn applicationIdsFollowTheirGrammar() {
    assert!(isValidApplicationId("a.b"));
    assert!(isValidApplicationId("com.example.app_1"));
    assert!(isValidApplicationId("a.b.c.d.e.f.g.h"));
    assert!(!isValidApplicationId("a"));
    assert!(!isValidApplicationId("a.b.c.d.e.f.g.h.i"));
    assert!(!isValidApplicationId("com..app"));
    assert!(!isValidApplicationId("com.1app"));
    assert!(!isValidApplicationId("Com.app"));
    assert!(!isValidApplicationId(&format!("a.{}", "b".repeat(126))));
    assert!(isValidApplicationId(&format!("a.{}", "b".repeat(125))));
}

#[test]
fn applicationNamesFollowTheirGrammar() {
    assert!(isValidApplicationName("名称"));
    assert!(isValidApplicationName(&"名".repeat(32)));
    assert!(!isValidApplicationName(&"名".repeat(33)));
    assert!(!isValidApplicationName(""));
    assert!(!isValidApplicationName(" x"));
    assert!(!isValidApplicationName("a\u{7}b"));
    assert_eq!(legacyApplicationName(), "旧版客户端");
}

#[test]
fn packageFilesAreNamedByTheirJob() {
    assert_eq!(packageFileName(sampleId), "sprak-client-0123456789abcdef0123456789abcdef.apk");
    assert_eq!(metadataFileName(sampleId), "0123456789abcdef0123456789abcdef.json");
}

#[test]
fn pickedIdentitiesComeFromTheJob() {
    assert_eq!(randomAsciiWord(&vec![0, 25, 26, 255], 0, 4), "azav");
    assert_eq!(randomApplicationId(sampleId), "vxwua.rgnvn.oianjb");
    assert_eq!(randomApplicationName(sampleId), "Nhsiqs");
    assert!(isValidApplicationId(&randomApplicationId(7)));
    assert!(isValidApplicationName(&randomApplicationName(7)));
}

#[test]
fn onlyPublicAddressesAreNodes() {
    let v4 = |a: u32, b: u32, c: u32, d: u32| IpAddress::V4(a << 24 | b << 16 | c << 8 | d);
    assert!(isPublicClientNodeAddress(v4(8, 8, 8, 8)));
    assert!(isPublicClientNodeAddress(v4(100, 63, 0, 1)));
    assert!(isPublicClientNodeAddress(v4(198, 20, 0, 1)));
    for address in [
        v4(10, 0, 0, 1),
        v4(127, 0, 0, 1),
        v4(169, 254, 1, 1),
        v4(172, 31, 0, 1),
        v4(192, 168, 1, 1),
        v4(192, 0, 2, 1),
        v4(198, 51, 100, 1),
        v4(203, 0, 113, 1),
        v4(224, 0, 0, 1),
        v4(255, 255, 255, 255),
        v4(0, 1, 2, 3),
        v4(100, 64, 0, 1),
        v4(192, 0, 0, 1),
        v4(198, 19, 0, 1),
        v4(240, 0, 0, 1),
    ] {
        assert!(!isPublicClientNodeAddress(address), "{address:?}");
    }
    assert!(isPublicClientNodeAddress(IpAddress::V6(0x2606_4700_4700_0000_0000_0000_0000_1111)));
    assert!(isPublicClientNodeAddress(IpAddress::V6(0xffff_0808_0808)));
    assert!(!isPublicClientNodeAddress(IpAddress::V6(0xffff_0a00_0001)));
    assert!(!isPublicClientNodeAddress(IpAddress::V6(1)));
    assert!(!isPublicClientNodeAddress(IpAddress::V6(0x2001_0db8_0000_0000_0000_0000_0000_0001)));
    assert!(!isPublicClientNodeAddress(IpAddress::V6(0xfe80 << 112 | 1)));
    assert!(!isPublicClientNodeAddress(IpAddress::V6(0xfc00 << 112 | 1)));
    assert!(!isPublicClientNodeAddress(IpAddress::V6(0xfec0 << 112 | 1)));
    assert!(!isPublicClientNodeAddress(IpAddress::V6(0xff02 << 112 | 1)));
}

#[test]
fn nodeAddressIsPlanned() {
    let public = || HostAddress { address: IpAddress::V4(0x0808_0808), text: "8.8.8.8".to_string() };
    let private = || HostAddress { address: IpAddress::V4(0x0a00_0001), text: "10.0.0.1".to_string() };
    assert_eq!(parsePublicClientNodeAddress(&Some(public())), Some("8.8.8.8".to_string()));
    assert_eq!(parsePublicClientNodeAddress(&Some(private())), None);
    assert_eq!(parsePublicClientNodeAddress(&None), None);
    assert!(matches!(
        resolvePackagedNodeHost(&FixedHost::Given(Some(public())), &FixedHost::Absent, &private()),
        NodeHostPlan::Use(host) if host == "8.8.8.8"
    ));
    assert!(matches!(
        resolvePackagedNodeHost(&FixedHost::Given(Some(private())), &FixedHost::Absent, &public()),
        NodeHostPlan::Unavailable
    ));
    assert!(matches!(
        resolvePackagedNodeHost(&FixedHost::Absent, &FixedHost::Given(Some(private())), &public()),
        NodeHostPlan::Use(host) if host == "10.0.0.1"
    ));
    assert!(matches!(
        resolvePackagedNodeHost(&FixedHost::Absent, &FixedHost::Absent, &public()),
        NodeHostPlan::Use(host) if host == "8.8.8.8"
    ));
    assert!(matches!(
        resolvePackagedNodeHost(&FixedHost::Absent, &FixedHost::Absent, &private()),
        NodeHostPlan::Discover
    ));
    assert_eq!(
        clientRulesUrl(8443),
        "http://client-rules.internal.invalid:8443/api/v1/client/routing.txt"
    );
}

#[test]
fn choicesAreNormalized() {
    assert_eq!(normalizeOptionalText(Some("  x ".to_string())), Some("  x ".to_string()));
    assert_eq!(normalizeOptionalText(Some("   ".to_string())), None);
    assert_eq!(normalizeOptionalText(None), None);
    let normalized =
        normalizeClientPackageCustomization(request(Some("a.b"), Some("  "), Some(""))).unwrap();
    assert_eq!(normalized.applicationId, Some("a.b".to_string()));
    assert_eq!(normalized.applicationName, None);
    assert_eq!(normalized.iconBase64, None);
    let twice = normalizeClientPackageCustomization(normalized).unwrap();
    assert_eq!(twice.applicationId, Some("a.b".to_string()));
    assert!(normalizeClientPackageCustomization(request(Some("x"), None, None)).is_none());
    assert!(normalizeClientPackageCustomization(request(Some(" a.b"), None, None)).is_none());
    assert!(normalizeClientPackageCustomization(request(None, Some("a\u{1}b"), None)).is_none());
    assert!(normalizeClientPackageCustomization(request(None, None, Some("aGk="))).is_some());
    assert!(normalizeClientPackageCustomization(request(None, None, Some("!"))).is_none());
    assert!(checkIcon(&Some(vec![1])));
    assert!(!checkIcon(&Some(vec![])));
    assert!(!checkIcon(&Some(vec![0; 1048577])));
    assert!(!checkIcon(&None));
}

#[test]
fn downloadsPassEveryCheck() {
    let mut step = beginDownload(&Some(request(None, None, None))).unwrap();
    let mut seen = vec![step];
    for outcome in [
        DownloadOutcome::Answered(true),
        DownloadOutcome::Answered(true),
        DownloadOutcome::Node { found: true },
        DownloadOutcome::Entry { enabled: true },
        DownloadOutcome::Built,
    ] {
        step = downloadGeneratedClientPackage(step, outcome).unwrap();
        seen.push(step);
    }
    assert_eq!(
        seen,
        vec![
            DownloadStep::VerifyCredentials,
            DownloadStep::CheckRules,
            DownloadStep::ResolveNode,
            DownloadStep::CheckEntry,
            DownloadStep::Build,
            DownloadStep::Send,
        ]
    );
}

#[test]
fn refusedDownloadsAreAnswered() {
    let refused = |step, outcome| {
        let error = downloadGeneratedClientPackage(step, outcome).unwrap_err();
        (error.status, error.code)
    };
    assert_eq!(
        beginDownload(&None).unwrap_err().code,
        ErrorCode::InvalidConfigurationRequest
    );
    let mut anonymous = request(None, None, None);
    anonymous.password = String::new();
    assert_eq!(beginDownload(&Some(anonymous)).unwrap_err().status, 401);
    assert_eq!(
        refused(DownloadStep::VerifyCredentials, DownloadOutcome::Answered(false)),
        (401, ErrorCode::ClientPackageAuthenticationFailed)
    );
    assert_eq!(
        refused(DownloadStep::CheckRules, DownloadOutcome::Unreachable),
        (503, ErrorCode::ClientPackageServiceUnavailable)
    );
    assert_eq!(
        refused(DownloadStep::ResolveNode, DownloadOutcome::Node { found: false }),
        (400, ErrorCode::ClientNodeUnavailable)
    );
    assert_eq!(
        refused(DownloadStep::Build, DownloadOutcome::NotBuilt(ClientPackageBuildError::Busy)),
        (409, ErrorCode::ClientPackageBusy)
    );
    assert_eq!(
        refused(DownloadStep::Build, DownloadOutcome::NotBuilt(ClientPackageBuildError::Failed)),
        (500, ErrorCode::ClientPackageOperationFailed)
    );
    let headers = downloadHeaders(&artifact(sampleId, 1));
    assert_eq!(headers[1].value, "3");
    assert_eq!(
        headers[2].value,
        "attachment; filename=\"sprak-client-0123456789abcdef0123456789abcdef.apk\""
    );
    assert_eq!(headers[3].value, "no-store");
}

#[test]
fn storedRecordsAreChecked() {
    assert!(validateStoredArtifact(&artifact(1, 1)).is_ok());
    let mut misnamed = artifact(1, 1);
    misnamed.fileName = "x.apk".to_string();
    assert_eq!(
        validateStoredArtifact(&misnamed).unwrap_err(),
        "客户端产物元数据标识不匹配：00000000-0000-0000-0000-000000000001"
    );
    let mut unsized_ = artifact(1, 1);
    unsized_.sizeBytes = 0;
    assert_eq!(
        validateStoredArtifact(&unsized_).unwrap_err(),
        "客户端生成记录摘要无效：00000000-0000-0000-0000-000000000001"
    );
    let mut upper = artifact(1, 1);
    upper.sha256 = "AB".repeat(32);
    assert!(validateStoredArtifact(&upper).is_err());
}

#[test]
fn newestTenRecordsAreKept() {
    let stored: Vec<ClientPackageArtifact> = (0..12).map(|i| artifact(i, i as u64)).collect();
    let state = loadArtifacts(&stored).unwrap();
    assert_eq!(state.packages.len(), 10);
    assert_eq!(state.packages[0].id, 11);
    assert_eq!(state.packages[9].id, 2);
    let mut broken = artifact(3, 3);
    broken.sha256 = String::new();
    assert!(loadArtifacts(&vec![artifact(1, 1), broken]).is_err());
}

#[test]
fn buildsGetFreshIdentifiers() {
    let mut state = idle(vec![]);
    let id = state.beginBuild("8.8.8.8".to_string(), 443, &None, &None, 5).unwrap();
    let job = state.snapshot().activeJob.unwrap();
    assert_eq!((job.id, job.applicationId), (id, randomApplicationId(id)));
    assert!(matches!(
        state.beginBuild("8.8.8.8".to_string(), 443, &None, &None, 6),
        Err(ClientPackageBuildError::Busy)
    ));
}

#[test]
fn oneBuildRunsAtATime() {
    let mut state = idle(vec![]);
    assert!(state
        .buildForDownload(sampleId, "8.8.8.8".to_string(), 443, &None, &None, 5)
        .is_ok());
    assert!(matches!(
        state.buildForDownload(2, "8.8.8.8".to_string(), 443, &None, &None, 6),
        Err(ClientPackageBuildError::Busy)
    ));
    let job = state.activeJob.as_ref().unwrap();
    assert_eq!(job.applicationId, randomApplicationId(sampleId));
    assert_eq!(job.stage, ClientPackageStage::Preparing);
    state.setStage(sampleId, ClientPackageStage::Building);
    state.setStage(99, ClientPackageStage::Verifying);
    assert_eq!(state.snapshot().activeJob.unwrap().stage, ClientPackageStage::Building);
    state.fail("no space");
    assert_eq!(
        state.snapshot().activeJob.unwrap().failureReason,
        Some("no space".to_string())
    );
    state.finishFailedOperation(BuildFailure::Run { processExited: true });
    assert!(!state.operationActive);
    assert!(state
        .buildForDownload(3, "8.8.8.8".to_string(), 443, &None, &None, 7)
        .is_ok());
    state.finishFailedOperation(BuildFailure::Run { processExited: false });
    assert!(state.operationActive);
}

#[test]
fn historyKeepsTenRecords() {
    let mut state = idle((0..10).map(|i| artifact(100 - i, 100 - i as u64)).collect());
    assert!(state
        .buildForDownload(sampleId, "8.8.8.8".to_string(), 443, &None, &None, 5)
        .is_ok());
    assert_eq!(state.staleRecords(), vec![91]);
    state.complete(artifact(sampleId, 200));
    assert_eq!(state.packages.len(), 10);
    assert_eq!(state.packages[0].id, sampleId);
    assert!(state.packages.iter().all(|package| package.id != 91));
    assert_eq!(state.activeJob.as_ref().unwrap().stage, ClientPackageStage::Ready);
    state.finishCleanup(true);
    assert!(!state.operationActive);
}

#[test]
fn builtPackagesMustMatchTheirReport() {
    let mut state = idle(vec![]);
    assert!(state
        .buildForDownload(sampleId, "8.8.8.8".to_string(), 443, &None, &None, 5)
        .is_ok());
    let job = state.activeJob.unwrap();
    let digest = "dd37c2d7274f7ea982cb83390c36918fee9ce8889073c44b68cdc00bdb8c3e04";
    let built = buildClientPackage(&job, 3, digest, &b"apk".to_vec(), 9).unwrap();
    assert_eq!(built.sha256, digest);
    assert_eq!(built.createdAtMilliseconds, 9);
    assert!(validateStoredArtifact(&built).is_ok());
    assert!(buildClientPackage(&job, 4, digest, &b"apk".to_vec(), 9).is_none());
    assert!(buildClientPackage(&job, 3, &"0".repeat(64), &b"apk".to_vec(), 9).is_none());
}

#[test]
fn temporaryPackagesAreRemovedWithPatience() {
    assert!(matches!(retryTemporaryPackageCleanup(1, 8, true), CleanupStep::Done));
    assert!(matches!(retryTemporaryPackageCleanup(1, 8, false), CleanupStep::Retry));
    assert!(matches!(retryTemporaryPackageCleanup(8, 8, false), CleanupStep::GiveUp));
}

#[test]
fn packagerRunsAreJudged() {
    assert!(exitedPackagerError("r".to_string()).processExited);
    assert_eq!(terminateClientPackager(true, &None, false), None);
    assert_eq!(terminateClientPackager(false, &None, true), None);
    assert_eq!(
        terminateClientPackager(false, &Some("denied".to_string()), false),
        Some("等待已终止打包器退出超时，服务已阻止后续生成；终止请求失败：denied".to_string())
    );
    let stuck = terminateSpawnedPackager("r".to_string(), &Some("p".to_string()));
    assert_eq!((stuck.reason.as_str(), stuck.processExited), ("r；p", false));
    assert_eq!(
        readClientPackagerOutput(vec![0; 65537], &None).unwrap_err(),
        "独立客户端打包器输出超过协议上限"
    );
    assert_eq!(
        readClientPackagerOutput(vec![], &Some("eof".to_string())).unwrap_err(),
        "读取独立客户端打包器输出失败：eof"
    );
    let output = |success: bool, stdout: &[u8], stderr: &[u8]| PackagerOutput {
        success,
        stdout: stdout.to_vec(),
        stderr: stderr.to_vec(),
    };
    assert!(runClientPackager(&output(true, b"{}", b"")).is_none());
    assert_eq!(
        runClientPackager(&output(false, b"", b" bad template \n")).unwrap().reason,
        "独立客户端打包器失败：bad template"
    );
    assert_eq!(
        runClientPackager(&output(false, b"", &[0xff])).unwrap().reason,
        "独立客户端打包器错误输出不是 UTF-8"
    );
    assert_eq!(
        runClientPackager(&output(true, b"", b"noise")).unwrap().reason,
        "独立客户端打包器成功时写入了错误输出"
    );
    let failed = executeClientPackager(true, Some("pipe".to_string()), Ok(vec![]), Ok(vec![]));
    assert_eq!(failed.unwrap_err().reason, "写入独立客户端打包器秘密输入失败：pipe");
    assert!(executeClientPackager(true, None, Ok(vec![1]), Ok(vec![])).is_ok());
}

#[test]
fn packagerFilesAreCleanedUp() {
    assert_eq!(
        transientPackageFiles("x.apk"),
        vec!["x.apk".to_string(), ".x.apk.raw.apk".to_string(), ".x.apk.signed.apk".to_string()]
    );
    assert_eq!(packageCleanupResult(&vec![]), None);
    assert_eq!(
        packageCleanupResult(&vec!["a".to_string(), "b".to_string()]),
        Some("a；b".to_string())
    );
    for (name, entry) in [
        ("a.apk", PackageEntry::Package),
        ("..apk", PackageEntry::Package),
        ("a.b.json", PackageEntry::Record),
        (".apk", PackageEntry::Other),
        ("apk", PackageEntry::Other),
        ("a.apk.part", PackageEntry::Other),
        ("a.", PackageEntry::Other),
    ] {
        assert_eq!(classifyEntry(name), entry, "{name}");
    }
    assert_eq!(removeOrphanedPackageFiles(&vec![RemovalOutcome::Gone]), None);
    assert_eq!(
        removeOrphanedPackageFiles(&vec![
            RemovalOutcome::Unreadable("e".to_string()),
            RemovalOutcome::Gone,
            RemovalOutcome::Failed { path: "/p".to_string(), cause: "c".to_string() },
        ]),
        Some("读取目录项失败：e；/p：c".to_string())
    );
    let kept = cleanupFailedClientPackage("r".to_string(), &Some("p".to_string()));
    assert_eq!(kept.reason, "r；清理客户端临时文件失败：p");
    let concluded = concludeFailedRun(exitedPackagerError("r".to_string()), &None);
    assert_eq!(concluded.reason, "r");
}

#[test]
fn packagerLiesBesideTheProcess() {
    let parent = Some("C:\\app".to_string());
    assert_eq!(
        resolveClientPackagerExecutable(PathStyle::Windows, None, &parent),
        "C:\\app\\clientPackager.exe"
    );
    assert_eq!(
        resolveClientTemplatePath(PathStyle::Windows, Some("D:\\t.apk".to_string()), &parent),
        "D:\\t.apk"
    );
    assert_eq!(resolveClientTemplatePath(PathStyle::Unix, None, &None), "clientTemplate.apk");
}
