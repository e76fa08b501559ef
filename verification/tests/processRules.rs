#![allow(non_snake_case, non_upper_case_globals)]

use proxy_backend::controlApi::configuration::ProcessCaptureConfiguration;
use proxy_backend::controlApi::processControl::{
    captureForSelection, captureOperation, iconDataUrl, normalizeSelection, pathsForIcons,
    processSelectionSnapshot, replaceSelection, resolveSelectedProcessIds, runningProcesses,
    runtimeConfigurationForSelection, synchronizeSelectedProcessIds, CaptureOperation, CaptureOrder,
    IconCache, PersistedProcessSelection, ProcessCandidate, ProcessSelectionUpdate, SelectionChange,
    SelectionStep, SynchronizationStep,
};
use proxy_backend::controlApi::processIcon::{convertPixels, encodePng};
use proxy_backend::controlApi::serviceState::ServiceState;
use proxy_backend::controlApi::uiContextControl::{
    validIdentifier, validQualifier, validateUpdate, UiContextRegistry, UiContextUpdate,
    UiDataSelection, UiPage, UiSelectionKind, UiWindowKind,
};
use proxy_backend::localization::ErrorCode;
use proxy_backend::network::{Endpoint, IpAddress};

const idle: IpAddress = IpAddress::V4(0x7f00_0001);
const inner: Endpoint = Endpoint { address: IpAddress::V6(1), port: 49152 };

fn paths(values: &[&str]) -> Vec<String> {
    values.iter().map(|value| value.to_string()).collect()
}

fn candidate(id: u32, name: &str, path: &str) -> ProcessCandidate {
    ProcessCandidate { processId: id, name: name.to_string(), executablePath: path.to_string() }
}

fn report(instance: u128, sequence: u64, focused: bool) -> UiContextUpdate {
    UiContextUpdate {
        instanceId: instance,
        sequence,
        windowKind: UiWindowKind::Main,
        page: UiPage::Overview,
        section: Some("traffic".to_string()),
        view: None,
        selection: None,
        focused,
        visible: true,
    }
}

#[test]
fn selectionsAreNormalized() {
    let normalized = normalizeSelection(PersistedProcessSelection {
        enabled: true,
        selectedPaths: paths(&["  C:\\B.exe ", "C:\\a.exe", "c:\\b.EXE", "   "]),
    });
    assert_eq!(normalized.selectedPaths.len(), 2);
    let again = normalizeSelection(PersistedProcessSelection {
        enabled: normalized.enabled,
        selectedPaths: normalized.selectedPaths.clone(),
    });
    assert_eq!(again.selectedPaths, normalized.selectedPaths);
    assert_eq!(
        replaceSelection(ProcessSelectionUpdate { enabled: true, selectedPaths: paths(&[" "]) })
            .unwrap_err(),
        "启用进程捕获时至少需要选择一个可执行文件路径"
    );
    assert!(replaceSelection(ProcessSelectionUpdate { enabled: false, selectedPaths: vec![] }).is_ok());
}

#[test]
fn processesAreResolvedByPath() {
    let processes = vec![
        candidate(3, "b", "C:\\B.exe"),
        candidate(1, "a", "c:\\a.exe"),
        candidate(2, "b", "c:\\b.exe"),
    ];
    assert_eq!(
        resolveSelectedProcessIds(&paths(&["C:\\b.EXE"]), &processes),
        vec![2, 3]
    );
    assert_eq!(resolveSelectedProcessIds(&paths(&["x"]), &processes), Vec::<u32>::new());
    let selection = PersistedProcessSelection {
        enabled: true,
        selectedPaths: paths(&["c:\\a.exe"]),
    };
    let target = runtimeConfigurationForSelection(&selection, &processes, 1080, idle);
    assert!(target.enabled);
    assert_eq!((target.processIds, target.proxyPort), (vec![1], 1080));
    let capture = |service| {
        let led = captureForSelection(&selection, &processes, service, 1080, idle, Some(inner));
        (led.enabled, led.processIds, led.proxyAddress, led.proxyPort)
    };
    assert_eq!(capture(ServiceState::Stopped), (true, vec![1], idle, 1080));
    assert_eq!(capture(ServiceState::Running), (true, vec![1], inner.address, 49152));
    let listed = runningProcesses(&processes);
    assert_eq!(listed.len(), 3);
    assert_eq!(listed[0].copied().name, "a");
}

#[test]
fn captureFollowsTheSelection() {
    assert_eq!(captureOperation(true, true), CaptureOperation::UpdateProcessIds);
    assert_eq!(captureOperation(false, true), CaptureOperation::Start);
    assert_eq!(captureOperation(true, false), CaptureOperation::Stop);
    assert_eq!(captureOperation(false, false), CaptureOperation::Keep);
    let begin = |service: ServiceState, enabledNow: bool| {
        let selection = PersistedProcessSelection {
            enabled: true,
            selectedPaths: paths(&["c:\\a.exe"]),
        };
        let running = vec![candidate(7, "a", "C:\\A.exe")];
        let entry = match service {
            ServiceState::Running => Some(inner),
            _ => None,
        };
        SelectionChange::begin(service, enabledNow, &selection, &running, 1080, idle, entry)
    };
    let mut change = begin(ServiceState::Running, false);
    let mut current = ProcessCaptureConfiguration {
        enabled: false,
        processIds: vec![],
        proxyPort: 1,
        proxyAddress: idle,
    };
    let mut steps = vec![change.step];
    while change.step != SelectionStep::Done {
        if let Some(order) = change.order() {
            assert!(matches!(order, CaptureOrder::Start(started)
                if started.proxyPort == 49152 && started.proxyAddress == inner.address));
        }
        change.commit(&mut current);
        assert_eq!(current.enabled, change.step != SelectionStep::Store
            && !matches!(change.step, SelectionStep::Apply(_)));
        change = change.replaceProcessSelection(None);
        steps.push(change.step);
    }
    assert_eq!((current.processIds, current.proxyPort), (vec![7], 49152));
    assert_eq!(current.proxyAddress, inner.address);
    assert_eq!(
        steps,
        vec![
            SelectionStep::Store,
            SelectionStep::Apply(CaptureOperation::Start),
            SelectionStep::Commit,
            SelectionStep::PublishRuntimeViews,
            SelectionStep::Done,
        ]
    );
    let stopped = begin(ServiceState::Stopped, false).replaceProcessSelection(None);
    assert_eq!(stopped.step, SelectionStep::Commit);
    assert_eq!((stopped.target.proxyPort, stopped.target.proxyAddress), (1080, idle));
    assert!(stopped.refusal().is_none());
    let refused = begin(ServiceState::Running, true)
        .replaceProcessSelection(None)
        .replaceProcessSelection(Some("driver".to_string()));
    assert_eq!(refused.step, SelectionStep::Refused);
    let answer = refused.refusal().unwrap();
    assert_eq!(
        (answer.status, answer.code),
        (500, ErrorCode::ProcessSelectionOperationFailed)
    );
}

#[test]
fn cyclesEndWithPublishing() {
    let begin = synchronizeSelectedProcessIds;
    assert_eq!(begin(false, ServiceState::Running, true), SynchronizationStep::Done);
    assert_eq!(begin(true, ServiceState::Stopped, true), SynchronizationStep::Done);
    assert_eq!(begin(true, ServiceState::Running, false), SynchronizationStep::Done);
    for (succeeded, second) in
        [(true, SynchronizationStep::Adopt), (false, SynchronizationStep::Report)]
    {
        let step = begin(true, ServiceState::Running, true).advance(succeeded);
        assert_eq!(step, second);
        assert_eq!(step.advance(true), SynchronizationStep::PublishCaptureView);
        assert_eq!(step.advance(true).advance(true), SynchronizationStep::Done);
    }
}

#[test]
fn iconsAreRemembered() {
    assert_eq!(iconDataUrl(&b"hi".to_vec()), "data:image/png;base64,aGk=");
    let mut cache = IconCache::new();
    assert!(cache.isMissing("C:\\A.exe"));
    cache.remember("C:\\A.exe", &Some(b"hi".to_vec()));
    cache.remember("c:\\b.exe", &None);
    assert!(!cache.isMissing("c:\\a.EXE"));
    let icons = cache.processIcons(&paths(&["c:\\a.exe", "c:\\b.exe", "c:\\c.exe"]));
    assert_eq!(icons.len(), 1);
    assert_eq!(icons[0].value, "data:image/png;base64,aGk=");
    let selection = PersistedProcessSelection {
        enabled: true,
        selectedPaths: paths(&["C:\\a.exe"]),
    };
    let running = vec![candidate(7, "b", "c:\\b.exe"), candidate(3, "a", "c:\\A.exe")];
    assert_eq!(
        pathsForIcons(&selection, &running),
        paths(&["c:\\b.exe", "c:\\A.exe", "C:\\a.exe"])
    );
    let shown = processSelectionSnapshot(&selection, running, &cache);
    assert!(shown.enabled);
    assert_eq!(shown.resolvedProcessIds, vec![3]);
    assert_eq!((shown.processes.len(), shown.processIcons.len()), (2, 1));
    assert_eq!(shown.selectedPaths, paths(&["C:\\a.exe"]));
}

#[test]
fn pixelsAreConverted() {
    assert_eq!(convertPixels(&vec![10, 20, 30, 255]), vec![30, 20, 10, 255]);
    assert_eq!(convertPixels(&vec![64, 32, 16, 128]), vec![31, 63, 127, 128]);
    assert_eq!(convertPixels(&vec![1, 2, 3, 0]), vec![3, 2, 1, 255]);
    assert_eq!(
        convertPixels(&vec![200, 0, 0, 100, 1, 2, 3, 0]),
        vec![0, 0, 255, 100, 3, 2, 1, 0]
    );
    let image = encodePng(&vec![0x80; 48 * 48 * 4]).unwrap();
    assert_eq!(&image[..4], b"\x89PNG");
    let decoded = png::Decoder::new(std::io::Cursor::new(image)).read_info().unwrap();
    assert_eq!((decoded.info().width, decoded.info().height), (48, 48));
    assert!(encodePng(&vec![0; 4]).is_none());
}

#[test]
fn reportsAreChecked() {
    assert!(validQualifier(&None) && validQualifier(&Some("a-b.c".to_string())));
    assert!(!validQualifier(&Some("x".repeat(65))));
    assert!(validIdentifier("abc") && !validIdentifier("") && !validIdentifier(&"x".repeat(129)));
    assert!(validateUpdate(&report(1, 1, true)).is_ok());
    let mut crowded = report(1, 1, true);
    crowded.selection = Some(UiDataSelection {
        kind: UiSelectionKind::Transaction,
        ids: (0..65).map(|i| format!("t{i}")).collect(),
        side: None,
        sequence: None,
    });
    assert_eq!(validateUpdate(&crowded).unwrap_err().status, 400);
}

#[test]
fn lateReportsAreIgnored() {
    let mut registry = UiContextRegistry::new();
    assert!(registry.update(report(1, 5, false), 1000).is_ok());
    let late = registry.update(report(1, 4, true), 1001).unwrap();
    assert_eq!(late.contexts[0].sequence, 5);
    assert!(!late.contexts[0].focused);
    let second = registry.update(report(2, 1, true), 1002).unwrap();
    assert_eq!(second.contexts.len(), 2);
    assert_eq!(second.primary.unwrap().instanceId, 2);
    assert_eq!(registry.snapshot(1002 + 20001).contexts.len(), 0);
}
