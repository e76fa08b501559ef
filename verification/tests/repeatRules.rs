#![allow(non_snake_case)]

use proxy_backend::controlApi::headerFields::{copyFields, HeaderField, RawField};
use proxy_backend::controlApi::httpControl::{ApiError, CaptureError, CaptureErrorKind};
use proxy_backend::controlApi::repeatControl::latency::{percentile, summarizeLatency};
use proxy_backend::controlApi::repeatControl::loadTests::{
    AdvancedRepeatState, LoadAction, ManagedLoadTest, RepeatRuntime, ReplayIterationResult,
};
use proxy_backend::controlApi::repeatControl::replayExecution::{
    beginReplayCapture, bodyWrite, completeReplayResponse, contentEncoding, contentType,
    finishReplayFailure, headerBytes, headerText, measureResponse, readResponseBody, readVisible,
    recordedFields, requestHeaderBytes, responseHeaderBytes, settleReplayCapture,
    storeReplayRequest, CaptureBeginning, PipelineRequestOutcome, Replay, ReplayError, ReplayEvent,
    ReplayStep,
};
use proxy_backend::controlApi::repeatControl::{
    checkBody, composeBody, composeHeaders, composeLocation, defaultViaProxy, locateReplayRequest,
    mapRepeatBodyError, mergeRepeatRequest, prepareReplayRequest, repeatTransaction,
    validateAdvancedPlan, validateRepeatProtocol, validateRepeatTarget, AdvancedRepeatPlan,
    ComposeRequest, ComposeRequestOverrides, RepeatRequest, UriParts,
};
use proxy_backend::controlApi::transactions::{
    transactionLocation, TransactionAddress, TransactionProtocol,
};
use proxy_backend::localization::ErrorCode;

fn field(name: &str, value: &str) -> HeaderField {
    HeaderField { name: name.to_string(), value: value.to_string() }
}

fn request(method: &str, url: &str) -> ComposeRequest {
    ComposeRequest {
        method: method.to_string(),
        url: url.to_string(),
        headers: vec![field("Accept", "*/*"), field("Host", "other")],
        bodyBase64: "aGk=".to_string(),
        viaProxy: true,
    }
}

fn plan(concurrency: usize, total: usize, interval: u64) -> AdvancedRepeatPlan {
    AdvancedRepeatPlan {
        name: "load".to_string(),
        base: request("GET", "http://example.com/"),
        concurrency,
        totalIterations: total,
        intervalMilliseconds: interval,
        recordEach: false,
        stopOnError: false,
    }
}

fn overrides() -> ComposeRequestOverrides {
    ComposeRequestOverrides {
        method: Some("POST".to_string()),
        url: None,
        headers: Some(vec![field("A", "1")]),
        bodyBase64: None,
        viaProxy: Some(false),
    }
}

#[test]
fn overridesDecideWhatTheyName() {
    assert!(defaultViaProxy());
    let merged = mergeRepeatRequest(
        "GET".to_string(),
        "http://a/".to_string(),
        vec![field("B", "2")],
        "eA==".to_string(),
        Some(overrides()),
    );
    assert_eq!((merged.method.as_str(), merged.url.as_str()), ("POST", "http://a/"));
    assert_eq!(merged.headers[0].name, "A");
    assert_eq!(merged.bodyBase64, "eA==");
    assert!(!merged.viaProxy);
    let kept = repeatTransaction(
        "GET".to_string(),
        "http://a/".to_string(),
        vec![field("B", "2")],
        &b"hi".to_vec(),
        None,
    );
    assert_eq!((kept.bodyBase64.as_str(), kept.viaProxy), ("aGk=", true));
    assert_eq!(copyFields(&kept.headers)[0].value, "2");
}

#[test]
fn locationsAreComposed() {
    let location = locateReplayRequest(&request("GET", "https://example.com/a?b=1")).unwrap();
    assert_eq!((location.protocol.as_str(), location.host.as_str()), ("https", "example.com"));
    assert_eq!((location.port, location.path.as_str(), location.query.as_str()), (443, "/a", "b=1"));
    let explicit = locateReplayRequest(&request("GET", "http://example.com:8080/")).unwrap();
    assert_eq!(explicit.port, 8080);
    for (method, url) in [
        ("GET", "ftp://example.com/"),
        ("GET", "/relative"),
        ("", "http://example.com/"),
        ("BAD METHOD", "http://example.com/"),
        ("GET", "not a url"),
    ] {
        let error = locateReplayRequest(&request(method, url)).unwrap_err();
        assert_eq!((error.status, error.code), (400, ErrorCode::InvalidRepeatRequest));
    }
    assert!(composeLocation(&UriParts {
        scheme: Some("http".to_string()),
        host: Some(String::new()),
        port: None,
        path: "/".to_string(),
        query: None,
        display: "http:///".to_string(),
    })
    .is_err());
}

#[test]
fn hostFollowsTheLocation() {
    let headers = composeHeaders(
        &vec![field("Accept", "a"), field("Host", "evil"), field("accept", "b")],
        &Some("example.com".to_string()),
    )
    .unwrap();
    assert_eq!(headers.get_all("host").iter().count(), 1);
    assert_eq!(headerText(&headers, "host"), "example.com");
    assert_eq!(headers.get_all("accept").iter().count(), 2);
    assert!(composeHeaders(&vec![field("bad name", "x")], &Some("h".to_string())).is_err());
    assert!(composeHeaders(&vec![field("a", "x\ny")], &Some("h".to_string())).is_err());
    assert!(composeHeaders(&vec![], &None).is_err());
    let many: Vec<HeaderField> = (0..257).map(|i| field(&format!("h{i}"), "x")).collect();
    assert!(composeHeaders(&many, &Some("h".to_string())).is_err());
}

#[test]
fn requestsArePrepared() {
    let prepared =
        prepareReplayRequest(&request("PUT", "http://example.com/x"), &Some("example.com".to_string()))
            .ok()
            .unwrap();
    assert_eq!((prepared.method.as_str(), prepared.body.as_slice()), ("PUT", b"hi".as_slice()));
    assert_eq!(prepared.originalLocation.path, "/x");
    assert!(prepared.viaProxy);
    assert_eq!(composeBody("aGk=").unwrap(), b"hi");
    assert!(composeBody("*").is_err());
    assert!(checkBody(Some(vec![0; 8388609])).is_err());
    assert!(checkBody(None).is_err());
    assert_eq!(checkBody(Some(vec![])).unwrap(), Vec::<u8>::new());
}

#[test]
fn plansAreBounded() {
    let host = Some("example.com".to_string());
    let code = |plan: AdvancedRepeatPlan, confirmed: bool| {
        validateAdvancedPlan(&plan, confirmed, &host).map_err(|error| error.code)
    };
    assert_eq!(code(plan(1, 1, 0), true), Ok(()));
    assert_eq!(
        code(plan(1, 1, 0), false),
        Err(ErrorCode::AdvancedRepeatConfirmationRequired)
    );
    for bad in [plan(0, 1, 0), plan(257, 300, 0), plan(1, 0, 0), plan(1, 10001, 0), plan(1, 1, 60001)] {
        assert_eq!(code(bad, true), Err(ErrorCode::InvalidAdvancedRepeatPlan));
    }
    let mut unnamed = plan(1, 1, 0);
    unnamed.name = "  ".to_string();
    assert_eq!(code(unnamed, true), Err(ErrorCode::InvalidAdvancedRepeatPlan));
}

#[test]
fn onlyHttpIsRepeated() {
    let target = RepeatRequest { transactionId: "a".to_string(), overrides: None };
    assert!(validateRepeatTarget(&target, "a").is_ok());
    assert_eq!(validateRepeatTarget(&target, "b").unwrap_err().code, ErrorCode::InvalidRepeatRequest);
    assert!(validateRepeatProtocol(TransactionProtocol::Http).is_ok());
    assert!(validateRepeatProtocol(TransactionProtocol::Https).is_ok());
    assert_eq!(
        validateRepeatProtocol(TransactionProtocol::Ws).unwrap_err().code,
        ErrorCode::UnsupportedRepeatTransaction
    );
    assert_eq!(TransactionProtocol::Tunnel.scheme(), "https");
    assert_eq!(TransactionProtocol::Socks.scheme(), "socks");
    let gone = mapRepeatBodyError(CaptureError {
        kind: CaptureErrorKind::BodyNotFound,
        detail: String::new(),
    });
    assert_eq!(gone.code, ErrorCode::RepeatBodyUnavailable);
}

#[test]
fn latenciesAreSummarized() {
    let samples: Vec<u64> = (1..=100).rev().collect();
    let summary = summarizeLatency(&samples);
    assert_eq!((summary.min, summary.max), (1, 100));
    assert_eq!((summary.p50, summary.p95, summary.p99), (50, 95, 99));
    let single = summarizeLatency(&vec![7]);
    assert_eq!((single.min, single.p50, single.p99, single.max), (7, 7, 7, 7));
    assert_eq!(summarizeLatency(&vec![]).max, 0);
    assert_eq!(percentile(&vec![1, 2, 3, 4], 50), 2);
    assert_eq!(percentile(&vec![1, 2, 3, 4], 100), 4);
}

#[test]
fn sampleOrderDoesNotMatter() {
    let first = summarizeLatency(&vec![9, 1, 5, 5, 30]);
    let second = summarizeLatency(&vec![5, 30, 1, 9, 5]);
    assert_eq!((first.min, first.p50, first.p95, first.max), (1, 5, 30, 30));
    assert_eq!((second.min, second.p50, second.p95, second.max), (1, 5, 30, 30));
    assert_eq!(first.p99, second.p99);
}

#[test]
fn loadTestRunsItsPlan() {
    let mut test = ManagedLoadTest::new("j".to_string(), plan(2, 3, 0), 5);
    assert!(test.begin());
    let mut launched = 0;
    loop {
        match test.run(true) {
            LoadAction::Launch => {
                test.launch();
                launched += 1;
            }
            LoadAction::Join => test.updateLoadTestProgress(if launched == 3 {
                ReplayIterationResult::failed("repeatRequestFailed")
            } else {
                ReplayIterationResult::finished(None, 10)
            }),
            LoadAction::Finish => break,
            LoadAction::Pause(_) => {}
        }
        assert!(test.active <= 2);
    }
    test.conclude(9);
    assert_eq!(launched, 3);
    assert_eq!(test.snapshot.completedIterations, 3);
    assert_eq!(test.snapshot.successCount + test.snapshot.failureCount, 3);
    assert_eq!(test.snapshot.finishedAtMilliseconds, Some(9));
    assert_eq!(test.snapshot.lastError, Some("repeatRequestFailed".to_string()));
}

#[test]
fn cancelledLoadTestWindsDown() {
    let mut test = ManagedLoadTest::new("j".to_string(), plan(1, 5, 0), 5);
    assert!(test.begin());
    assert!(matches!(test.run(true), LoadAction::Launch));
    test.launch();
    test.cancel(6);
    assert!(matches!(test.run(true), LoadAction::Join));
    test.updateLoadTestProgress(ReplayIterationResult::finished(None, 1));
    assert!(matches!(test.run(true), LoadAction::Finish));
    test.conclude(7);
    assert_eq!(test.snapshot.state, AdvancedRepeatState::Cancelled);
    let refused = ReplayIterationResult::refused(&ApiError::badRequest(ErrorCode::InvalidRepeatRequest));
    assert!(!refused.succeeded && refused.errorCode.is_some());
}

#[test]
fn queuedTestsHaveTheirOwnNames() {
    let first = ManagedLoadTest::queue(plan(2, 3, 0), 5);
    let second = ManagedLoadTest::queue(plan(2, 3, 0), 5);
    assert_eq!(first.snapshot.jobId.len(), 36);
    assert_ne!(first.snapshot.jobId, second.snapshot.jobId);
    assert_eq!(first.snapshot.state, AdvancedRepeatState::Queued);
    assert_eq!(first.snapshot.startedAtMilliseconds, 5);
}

#[test]
fn loadTestsAreRemembered() {
    let mut runtime = RepeatRuntime::new();
    runtime.start(ManagedLoadTest::new("b".to_string(), plan(1, 1, 0), 1));
    runtime.start(ManagedLoadTest::new("a".to_string(), plan(1, 1, 0), 2));
    assert_eq!(runtime.get("a").unwrap().startedAtMilliseconds, 2);
    assert_eq!(runtime.get("x").unwrap_err().code, ErrorCode::LoadTestNotFound);
    assert_eq!(runtime.list().len(), 2);
    assert!(runtime.cancel("a", 3).is_ok());
    assert_eq!(runtime.cancel("x", 3).unwrap_err().status, 404);
}

#[test]
fn replaysKeepTheirCourse() {
    let replay = Replay::start(true, true);
    assert_eq!(replay.step, ReplayStep::RunRequestPipeline);
    let decided = replay
        .executeReplayInner(ReplayEvent::Decided(PipelineRequestOutcome::Forward), false)
        .unwrap();
    assert_eq!(decided.step, ReplayStep::StoreRequest);
    let stored = decided.executeReplayInner(ReplayEvent::Succeeded, false).unwrap();
    assert_eq!(stored.step, ReplayStep::Send);
    assert_eq!(
        stored.executeReplayInner(ReplayEvent::NoClient, false).unwrap_err(),
        ReplayError::ClientFailed
    );
    assert_eq!(
        stored.executeReplayInner(ReplayEvent::StepFailed, false).unwrap_err(),
        ReplayError::RequestFailed
    );
    assert_eq!(
        stored.executeReplayInner(ReplayEvent::Unreadable, false).unwrap_err(),
        ReplayError::ResponseReadFailed
    );
    assert_eq!(ReplayError::Cancelled.code(), "repeatCancelled");
    assert_eq!(ReplayError::PipelineFailed.code(), "repeatPipelineFailed");
    assert!(!finishReplayFailure(false, ReplayError::RequestFailed));
}

#[test]
fn responsesAreCollectedUpToTheirBound() {
    let mut body = vec![1];
    assert_eq!(readResponseBody(&mut body, &vec![2, 3]), Ok(()));
    assert_eq!(body, vec![1, 2, 3]);
    let mut full = vec![0; 8388607];
    assert_eq!(
        readResponseBody(&mut full, &vec![1, 2]),
        Err(ReplayError::ResponseReadFailed)
    );
    assert_eq!(full.len(), 8388607);
    assert_eq!(readResponseBody(&mut full, &vec![1]), Ok(()));
    assert_eq!(
        readResponseBody(&mut full, &vec![1]),
        Err(ReplayError::ResponseReadFailed)
    );
}

#[test]
fn headersAreMeasured() {
    let mut headers = composeHeaders(
        &vec![field("Content-Type", "text/plain"), field("Content-Encoding", "br")],
        &Some("h".to_string()),
    )
    .unwrap();
    assert_eq!(contentType(&headers), "text/plain");
    assert_eq!(contentEncoding(&headers), "br");
    let recorded = recordedFields(&headers);
    assert_eq!(recorded.len(), 3);
    assert_eq!(recorded[0].name, "content-type");
    headers.clear();
    assert_eq!(contentType(&headers), "");
    assert_eq!(contentEncoding(&headers), "identity");
    assert_eq!(readVisible(Some(vec![b'a', b'b'])), "ab");
    assert_eq!(readVisible(Some(vec![0xff])), "");
    assert_eq!(readVisible(None), "");
    let raw = vec![RawField { name: "ab".to_string(), value: b"cde".to_vec() }];
    assert_eq!(headerBytes(&raw), Some(9));
    let empty = http::HeaderMap::new();
    assert_eq!(requestHeaderBytes("GET", "/", &empty), Some(16));
    assert_eq!(responseHeaderBytes(404, &empty), Some(24));
    assert_eq!(responseHeaderBytes(799, &empty), Some(15));
    assert_eq!(measureResponse(&Some("OK".to_string()), None), None);
}

#[test]
fn replaysAreRecorded() {
    let host = Some("example.com".to_string());
    let mut secure = request("PUT", "https://example.com/x");
    secure.headers = vec![field("content-type", "text/plain"), field("content-encoding", "br")];
    let prepared = prepareReplayRequest(&secure, &host).unwrap();
    let beginning = beginReplayCapture(&prepared);
    assert_eq!(beginning.protocol, TransactionProtocol::Https);
    assert_eq!((beginning.method.as_str(), beginning.contentType.as_str()), ("PUT", "text/plain"));
    assert_eq!(beginning.clientAddress, "127.0.0.1:0");
    let plain = prepareReplayRequest(&request("GET", "http://example.com/x"), &host).unwrap();
    assert_eq!(beginReplayCapture(&plain).protocol, TransactionProtocol::Http);
    let stored = storeReplayRequest("PUT", "/x", &prepared.headers, Some(b"abc".to_vec()));
    assert_eq!((stored.body.bytes.as_slice(), stored.body.originalBytes), (&b"abc"[..], 3));
    assert_eq!((stored.body.contentType.as_str(), stored.body.encoding.as_str()), ("text/plain", "br"));
    assert_eq!(stored.headerBytes, requestHeaderBytes("PUT", "/x", &prepared.headers));
    assert_eq!(stored.fields.len(), 3);
    let answered = completeReplayResponse(404, &http::HeaderMap::new(), None);
    assert_eq!((answered.headerBytes, answered.body.originalBytes), (Some(24), 0));
    assert_eq!(bodyWrite(vec![1], "t".to_string(), "e".to_string()).encoding, "e");
    let refusal = |beginning| settleReplayCapture(beginning).unwrap_err();
    assert_eq!(refusal(CaptureBeginning::Failed).code, ErrorCode::RecordingOperationFailed);
    assert_eq!(refusal(CaptureBeginning::Unavailable).status, 409);
    assert_eq!(settleReplayCapture(CaptureBeginning::Begun("t".to_string())).unwrap(), "t");
    let location = transactionLocation(&TransactionAddress {
        protocol: TransactionProtocol::Tunnel,
        host: "example.com".to_string(),
        port: 443,
        path: "/x".to_string(),
        query: "a=1".to_string(),
        urlDisplay: "shown".to_string(),
    });
    assert_eq!((location.protocol.as_str(), location.display.as_str()), ("https", "shown"));
}
