#![allow(non_snake_case)]

use aes::cipher::{BlockCipherEncrypt, KeyInit};
use proxy_backend::controlApi::applicationBodyDecoder::contentCoding::{
    copyBytes, decodeContentCoding, parseContentCodings, readDecoded, undoCodings,
};
use proxy_backend::controlApi::applicationBodyDecoder::framedJson::{
    checkContainer, decodeKnownApplicationProtocol, decryptAes128EcbPkcs7, encryptedFormParameter,
    extractFramedJson, findBytes, findFramedJson, isPotentialEncryptedResponse, removePadding,
    validateJson, JsonKind, MessageSide,
};
use proxy_backend::controlApi::applicationBodyDecoder::{decodeApplicationBody, describeBody};
use proxy_backend::controlApi::mediaPreviewControl::isoTracks::{
    effectiveContentType, IsoInspector, IsoTrackKinds,
};
use proxy_backend::controlApi::mediaPreviewControl::leaseBudget::MediaPreviewLeaseBudget;
use proxy_backend::controlApi::mediaPreviewControl::rangePlan::{
    buildMetadataPlan, planVirtualRead, seamWindow, settleSegment, streamPreviewBody, ChunkOutcome,
    LeaseVerdict, LeasedPrefix, PlannedRangeSegment, PreviewPoll, PreviewSegment,
    PreviewStreamError, ResponseRangeCandidate, SegmentObservation, SegmentVerdict,
};
use proxy_backend::controlApi::mediaPreviewControl::{
    concludePreview, getResponseMediaPreview, incompleteBody, intoResponse, previewCapacityExceeded, rangeNotSatisfiable,
    readRange, requestedRange, resolvePreviewWindow, selectPreviewSource, ClaimedRange,
    MediaPreviewBody, MediaPreviewStatus, PreviewBodyMeta, PreviewEvidence, PreviewOutcome,
    PreviewSource, RangeHeader, SelectedResponse,
};
use proxy_backend::controlApi::recordingControl::{
    generationTarget, transactionBody, ClearOutcome, GenerationTarget, RecordingClear,
    RecordingClearStep, RecordingUpdate, RecordingUpdateStep,
};
use proxy_backend::controlApi::httpControl::{ApiError, CaptureError, CaptureErrorKind};
use proxy_backend::localization::ErrorCode;
use std::io::Write;

fn encrypt(plain: &[u8]) -> Vec<u8> {
    let key: [u8; 16] = *b"e82ckenh8dichen8";
    let cipher = aes::Aes128::new((&key).into());
    let padding = 16 - plain.len() % 16;
    let mut bytes = plain.to_vec();
    bytes.extend(std::iter::repeat(padding as u8).take(padding));
    for chunk in bytes.chunks_mut(16) {
        let mut block: [u8; 16] = chunk.try_into().unwrap();
        cipher.encrypt_block((&mut block).into());
        chunk.copy_from_slice(&block);
    }
    bytes
}

fn gzip(plain: &[u8]) -> Vec<u8> {
    let mut encoder = flate2::write::GzEncoder::new(Vec::new(), flate2::Compression::default());
    encoder.write_all(plain).unwrap();
    encoder.finish().unwrap()
}

fn texts(values: &[&str]) -> Vec<String> {
    values.iter().map(|value| value.to_string()).collect()
}

#[test]
fn codingsAreDeclared() {
    assert_eq!(parseContentCodings("gzip, BR"), Some(texts(&["gzip", "br"])));
    assert_eq!(parseContentCodings(" identity ,, x-gzip"), Some(texts(&["x-gzip"])));
    assert_eq!(parseContentCodings(""), Some(vec![]));
    assert_eq!(parseContentCodings("gzip, compress"), None);
}

#[test]
fn codingsAreUndone() {
    let plain = b"hello hello hello".to_vec();
    assert_eq!(decodeContentCoding("gzip", &gzip(&plain)), Some(plain.clone()));
    assert_eq!(decodeContentCoding("x-gzip", &gzip(&plain)), Some(plain.clone()));
    let mut zlib = flate2::write::ZlibEncoder::new(Vec::new(), flate2::Compression::default());
    zlib.write_all(&plain).unwrap();
    assert_eq!(decodeContentCoding("deflate", &zlib.finish().unwrap()), Some(plain.clone()));
    let mut bare = flate2::write::DeflateEncoder::new(Vec::new(), flate2::Compression::default());
    bare.write_all(&plain).unwrap();
    assert_eq!(decodeContentCoding("deflate", &bare.finish().unwrap()), Some(plain.clone()));
    let mut brotli = Vec::new();
    {
        let mut encoder = brotli::CompressorWriter::new(&mut brotli, 4096, 5, 22);
        encoder.write_all(&plain).unwrap();
    }
    assert_eq!(decodeContentCoding("br", &brotli), Some(plain.clone()));
    let zstd = zstd::encode_all(plain.as_slice(), 3).unwrap();
    assert_eq!(decodeContentCoding("zstd", &zstd), Some(plain.clone()));
    assert_eq!(decodeContentCoding("gzip", &plain), None);
    assert_eq!(decodeContentCoding("unknown", &plain), None);
    assert_eq!(readDecoded(Some(vec![1])), Some(vec![1]));
    assert_eq!(readDecoded(None), None);
    assert_eq!(copyBytes(&plain), plain);
}

#[test]
fn codingsAreUndoneInReverse() {
    let inner = gzip(b"payload");
    let outer = zstd::encode_all(inner.as_slice(), 3).unwrap();
    assert_eq!(undoCodings(&texts(&["gzip", "zstd"]), &outer), Some(b"payload".to_vec()));
    assert_eq!(undoCodings(&texts(&["zstd", "gzip"]), &outer), None);
    assert_eq!(undoCodings(&texts(&[]), &outer), Some(outer));
}

#[test]
fn paddingMustBeWhole() {
    assert_eq!(removePadding(&vec![1, 2, 2, 2]), Some(vec![1, 2]));
    assert_eq!(removePadding(&vec![3, 3, 3]), Some(vec![]));
    assert_eq!(removePadding(&vec![1, 2, 1, 2]), None);
    assert_eq!(removePadding(&vec![0]), None);
    assert_eq!(removePadding(&vec![17; 32]), None);
    assert_eq!(removePadding(&vec![]), None);
}

#[test]
fn messagesAreDecrypted() {
    assert_eq!(decryptAes128EcbPkcs7(&encrypt(b"{\"a\":1}")), Some(b"{\"a\":1}".to_vec()));
    assert_eq!(decryptAes128EcbPkcs7(&encrypt(&[7; 40])), Some(vec![7; 40]));
    assert_eq!(decryptAes128EcbPkcs7(&vec![1, 2, 3]), None);
    assert_eq!(decryptAes128EcbPkcs7(&vec![]), None);
}

#[test]
fn framesGiveTheirJson() {
    let digest = "0123456789abcdefABCDEF0123456789";
    let frame = format!("url-36cd479b6b5-[1,2]-36cd479b6b5-{digest}").into_bytes();
    assert_eq!(findFramedJson(&frame), Some((16, 21)));
    assert_eq!(extractFramedJson(&frame), Some(b"[1,2]".to_vec()));
    let scalar = format!("url-36cd479b6b5-12-36cd479b6b5-{digest}").into_bytes();
    assert_eq!(extractFramedJson(&scalar), None);
    let bare = format!("-36cd479b6b5-[1,2]-36cd479b6b5-{digest}").into_bytes();
    assert_eq!(extractFramedJson(&bare), None);
    let short = format!("url-36cd479b6b5-[1,2]-36cd479b6b5-{}", &digest[1..]).into_bytes();
    assert_eq!(extractFramedJson(&short), None);
    assert_eq!(findBytes(&b"abcabc".to_vec(), &b"ca".to_vec(), 0), Some(2));
    assert_eq!(findBytes(&b"abcabc".to_vec(), &b"abc".to_vec(), 1), Some(3));
    assert_eq!(findBytes(&b"abc".to_vec(), &vec![], 0), None);
}

#[test]
fn onlyContainersCountAsJson() {
    assert!(checkContainer(Some(JsonKind::Object)) && checkContainer(Some(JsonKind::Array)));
    assert!(!checkContainer(Some(JsonKind::Number)) && !checkContainer(None));
    assert_eq!(validateJson(b"{}".to_vec()), Some(b"{}".to_vec()));
    assert_eq!(validateJson(b"1".to_vec()), None);
    assert_eq!(validateJson(b"{".to_vec()), None);
}

#[test]
fn hiddenJsonIsUncovered() {
    let digest = "0123456789abcdefABCDEF0123456789";
    let frame = format!("url-36cd479b6b5-{{\"a\":1}}-36cd479b6b5-{digest}").into_bytes();
    let hex: String = encrypt(&frame).iter().map(|byte| format!("{byte:02X}")).collect();
    let form = format!("x=1&params={hex}").into_bytes();
    let kind = "application/x-www-form-urlencoded; charset=utf-8";
    assert_eq!(encryptedFormParameter(kind, &form), Some(encrypt(&frame)));
    assert_eq!(
        decodeKnownApplicationProtocol(MessageSide::Request, kind, &form),
        Some(b"{\"a\":1}".to_vec())
    );
    assert_eq!(encryptedFormParameter("text/plain", &form), None);
    let twice = format!("params={hex}&params={hex}").into_bytes();
    assert_eq!(encryptedFormParameter(kind, &twice), None);
    assert_eq!(
        decodeKnownApplicationProtocol(
            MessageSide::Response,
            "application/json;charset=UTF-8",
            &encrypt(b"[true]")
        ),
        Some(b"[true]".to_vec())
    );
    assert_eq!(
        decodeKnownApplicationProtocol(MessageSide::Response, "image/png", &encrypt(b"[true]")),
        None
    );
    assert!(isPotentialEncryptedResponse("") && isPotentialEncryptedResponse(" Text/HTML ; x"));
    assert!(!isPotentialEncryptedResponse("application/xml"));
}

#[test]
fn bodiesHaveAReadableForm() {
    let body = gzip(&encrypt(b"[1]"));
    let decoded =
        decodeApplicationBody(MessageSide::Response, "text/plain", "gzip", &body).unwrap();
    assert_eq!(decoded.algorithm, "gzip + aes128EcbPkcs7Json");
    assert_eq!(decoded.contentType, "application/json;charset=UTF-8");
    assert_eq!(decoded.bytes, b"[1]");
    let plain = decodeApplicationBody(MessageSide::Response, "text/plain", "gzip", &gzip(b"hi"));
    assert_eq!(plain.unwrap().contentType, "text/plain");
    assert!(decodeApplicationBody(MessageSide::Response, "text/plain", "", &b"hi".to_vec()).is_none());
    assert!(decodeApplicationBody(MessageSide::Response, "text/plain", "foo", &body).is_none());
    assert!(describeBody(vec![], "a/b", vec![1], None).is_none());
    assert_eq!(
        describeBody(texts(&["br", "gzip"]), "a/b", vec![1], None).unwrap().algorithm,
        "br + gzip"
    );
}

#[test]
fn recordedBodiesAreHandedOut() {
    let response = transactionBody(9, MessageSide::Response, "text/plain", "gzip", &gzip(b"hi"));
    assert_eq!(response.revision, 9);
    assert_ne!(response.base64, "aGk=");
    let decoded = response.decoded.unwrap();
    assert_eq!((decoded.base64.as_str(), decoded.decodedBytes), ("aGk=", 2));
    let plain = transactionBody(9, MessageSide::Request, "text/plain", "", &b"hi".to_vec());
    assert_eq!(plain.base64, "aGk=");
    assert!(plain.decoded.is_none());
}

#[test]
fn recordingChangesAreStoredFirst() {
    let mut update = RecordingUpdate::start();
    update.settleCapture(None);
    update.updateRecording(None);
    assert_eq!(update.step, RecordingUpdateStep::Persist);
    update.updateRecording(Some(ApiError::internal(ErrorCode::ToolOperationFailed)));
    assert_eq!(update.step, RecordingUpdateStep::Failed);
    assert_eq!(update.failure.unwrap().code, ErrorCode::ConfigurationPersistenceFailed);
    let mut complete = RecordingUpdate::start();
    for _ in 0..5 {
        complete.updateRecording(None);
    }
    assert_eq!(complete.step, RecordingUpdateStep::Respond);
    let mut refused = RecordingUpdate::start();
    refused.settleCapture(Some(CaptureError {
        kind: CaptureErrorKind::InvalidLimits,
        detail: String::new(),
    }));
    assert_eq!(refused.failure.unwrap().code, ErrorCode::InvalidRecordingLimits);
}

#[test]
fn clearedTrafficDoesNotComeBack() {
    assert_eq!(generationTarget(true, true), GenerationTarget::DataPlane);
    assert_eq!(generationTarget(false, true), GenerationTarget::LeftBehind);
    assert_eq!(generationTarget(false, false), GenerationTarget::Absent);
    let mut clear = RecordingClear::start();
    clear.clearRecording(ClearOutcome::Succeeded);
    clear.clearRecording(ClearOutcome::Capture(CaptureError {
        kind: CaptureErrorKind::Other,
        detail: "files".to_string(),
    }));
    assert_eq!(clear.step, RecordingClearStep::AdvanceGeneration);
    clear.clearRecording(ClearOutcome::Succeeded);
    clear.clearRecording(ClearOutcome::Succeeded);
    assert_eq!(clear.step, RecordingClearStep::Failed);
    assert_eq!(clear.failure.unwrap().code, ErrorCode::RecordingOperationFailed);
    let mut stuck = RecordingClear::start();
    stuck.clearRecording(ClearOutcome::Storage("full".to_string()));
    assert_eq!(stuck.failure.unwrap().params.entries[0].value, "full");
    let mut unpublished = RecordingClear::start();
    for _ in 0..3 {
        unpublished.clearRecording(ClearOutcome::Succeeded);
    }
    unpublished.clearRecording(ClearOutcome::Publication(ApiError::internal(
        ErrorCode::ToolOperationFailed,
    )));
    assert_eq!(unpublished.step, RecordingClearStep::Failed);
    let mut complete = RecordingClear::start();
    for _ in 0..4 {
        complete.clearRecording(ClearOutcome::Succeeded);
    }
    assert_eq!(complete.step, RecordingClearStep::Respond);
}

#[test]
fn rangesAreRequested() {
    let fields = |values: &[&'static str]| {
        let mut headers = http::HeaderMap::new();
        for value in values {
            headers.append("range", http::HeaderValue::from_static(value));
        }
        headers
    };
    let one = |text: &'static str| fields(&[text]);
    assert!(matches!(requestedRange(&fields(&[])), RangeHeader::Absent));
    assert!(matches!(
        requestedRange(&fields(&["bytes=0-1", "bytes=0-1"])),
        RangeHeader::Unsatisfiable
    ));
    assert!(matches!(requestedRange(&one(" bytes=0-1 ")), RangeHeader::Single(v) if v == "bytes=0-1"));
    assert!(matches!(requestedRange(&one("bytes=0-1,2-3")), RangeHeader::Unsatisfiable));
    assert!(matches!(readRange(&vec![None]), RangeHeader::Unsatisfiable));
    let window = |range: &str| resolvePreviewWindow(Some(range), 100).map(|w| (w.offset, w.length, w.end));
    assert_eq!(window("bytes=0-9"), Ok((0, 10, 9)));
    assert_eq!(window("bytes=90-"), Ok((90, 10, 99)));
    assert_eq!(window("bytes=-10"), Ok((90, 10, 99)));
    assert_eq!(window("Bytes=0-1000"), Ok((0, 100, 99)));
    assert_eq!(window("bytes=-1000"), Ok((0, 100, 99)));
    assert_eq!(window("bytes=0-99999999999999999999"), Ok((0, 100, 99)));
    assert_eq!(window("bytes=7-18446744073709551616"), Ok((7, 93, 99)));
    assert_eq!(window("bytes=-99999999999999999999"), Ok((0, 100, 99)));
    assert!(window("bytes=99999999999999999999-").is_err());
    assert!(window("bytes=0-9x").is_err());
    assert!(window("bytes=100-").is_err());
    assert!(window("bytes=5-4").is_err());
    assert!(window("bytes=-0").is_err());
    assert!(window("items=0-1").is_err());
    assert!(resolvePreviewWindow(Some("bytes=0-"), 0).is_err());
    assert_eq!(resolvePreviewWindow(None, 0).unwrap().length, 0);
}

#[test]
fn previewsAreAnswered() {
    let preview = MediaPreviewBody {
        status: MediaPreviewStatus::ContinuousPrefix,
        contentType: "video/mp4".to_string(),
        segmentCount: 2,
        capturedBytes: 100,
        totalBytes: 200,
        hasLease: true,
    };
    let whole = intoResponse(&preview, false, &RangeHeader::Absent);
    assert_eq!((whole.statusCode, whole.contentLength.as_str()), (200, "100"));
    assert!(whole.stream.is_some() && whole.contentRange.is_none());
    let part = intoResponse(&preview, true, &RangeHeader::Single("bytes=10-19".to_string()));
    assert_eq!(part.statusCode, 206);
    assert_eq!(part.contentRange, Some("bytes 10-19/100".to_string()));
    assert!(part.stream.is_none());
    let refused = intoResponse(&preview, false, &RangeHeader::Unsatisfiable);
    assert_eq!((refused.statusCode, refused.contentRange), (416, Some("bytes */100".to_string())));
    assert_eq!(rangeNotSatisfiable(7).contentRange, Some("bytes */7".to_string()));
    let full = previewCapacityExceeded();
    assert_eq!(full.statusCode, 429);
    assert_eq!(full.retryAfter, Some("1".to_string()));
    assert_eq!(incompleteBody("a/b", 5).totalBytes, 5);
    let odd = MediaPreviewBody { contentType: "a\nb".to_string(), ..incompleteBody("x", 1) };
    assert_eq!(
        intoResponse(&odd, false, &RangeHeader::Absent).preview.unwrap().contentType,
        "application/octet-stream"
    );
    assert_eq!(MediaPreviewStatus::Incomplete.label(), "incomplete");
}

#[test]
fn previewSourceIsChosen() {
    let meta = |encoding: &str, stored: u64, original: u64, truncated: bool| PreviewBodyMeta {
        contentType: "video/mp4".to_string(),
        encoding: encoding.to_string(),
        storedBytes: stored,
        originalBytes: original,
        truncated,
    };
    let selected = |status, body, range, tag| SelectedResponse {
        statusCode: Some(status),
        body,
        contentRange: range,
        hasStrongEntityTag: tag,
    };
    let range = |start, end, total| Some(ClaimedRange { start, end, total });
    assert!(matches!(
        selectPreviewSource(&selected(200, None, None, false)),
        PreviewSource::NoBody
    ));
    assert!(matches!(
        selectPreviewSource(&selected(206, Some(meta("", 5, 9, false)), None, false)),
        PreviewSource::Nothing(9)
    ));
    assert!(matches!(
        selectPreviewSource(&selected(200, Some(meta("gzip", 5, 9, false)), None, false)),
        PreviewSource::Nothing(9)
    ));
    assert!(matches!(
        selectPreviewSource(&selected(200, Some(meta("", 5, 9, true)), None, false)),
        PreviewSource::OwnBody { total: 9, status: MediaPreviewStatus::ContinuousPrefix }
    ));
    assert!(matches!(
        selectPreviewSource(&selected(206, Some(meta("", 5, 5, false)), range(0, 4, 20), true)),
        PreviewSource::Ranges(20)
    ));
    assert!(matches!(
        selectPreviewSource(&selected(206, Some(meta("", 5, 5, false)), range(0, 4, 20), false)),
        PreviewSource::OwnBody { total: 20, status: MediaPreviewStatus::ContinuousPrefix }
    ));
    assert!(matches!(
        selectPreviewSource(&selected(206, Some(meta("", 5, 5, false)), range(3, 7, 20), false)),
        PreviewSource::Nothing(20)
    ));
}

#[test]
fn previewOutcomeFollowsTheEvidence() {
    let meta = |storedBytes: u64| PreviewBodyMeta {
        contentType: "a/b".to_string(),
        encoding: String::new(),
        storedBytes,
        originalBytes: 5,
        truncated: false,
    };
    let selected = |hasStrongEntityTag: bool| SelectedResponse {
        statusCode: Some(206),
        body: Some(meta(5)),
        contentRange: Some(ClaimedRange { start: 0, end: 4, total: 20 }),
        hasStrongEntityTag,
    };
    assert!(matches!(
        concludePreview(&selected(true), PreviewEvidence::CapacityExceeded),
        PreviewOutcome::CapacityExceeded
    ));
    let ranges = |segmentCount: u64, capturedBytes: u64| PreviewEvidence::Ranges {
        segmentCount,
        capturedBytes,
        contentType: "video/mp4".to_string(),
    };
    match concludePreview(&selected(true), ranges(2, 20)) {
        PreviewOutcome::Body(body) => {
            assert_eq!(body.status, MediaPreviewStatus::Complete);
            assert_eq!(body.segmentCount, 2);
            assert_eq!(body.contentType, "video/mp4");
        }
        other => panic!("{other:?}"),
    }
    match concludePreview(&selected(true), ranges(0, 0)) {
        PreviewOutcome::Body(body) => {
            assert_eq!(body.status, MediaPreviewStatus::Incomplete);
            assert_eq!((body.contentType.as_str(), body.totalBytes), ("a/b", 20));
        }
        other => panic!("{other:?}"),
    }
    match concludePreview(
        &selected(true),
        PreviewEvidence::LeaseFailed(CaptureError {
            kind: CaptureErrorKind::BodyNotFound,
            detail: String::new(),
        }),
    ) {
        PreviewOutcome::Error(error) => assert_eq!(error.status, 404),
        other => panic!("{other:?}"),
    }
    let own = |storedBytes: u64| PreviewEvidence::OwnBody {
        meta: meta(storedBytes),
        contentType: "video/mp4".to_string(),
    };
    match concludePreview(&selected(false), own(5)) {
        PreviewOutcome::Body(body) => {
            assert_eq!(body.status, MediaPreviewStatus::ContinuousPrefix);
            assert_eq!((body.segmentCount, body.capturedBytes, body.totalBytes), (1, 5, 20));
        }
        other => panic!("{other:?}"),
    }
    match concludePreview(&selected(false), own(4)) {
        PreviewOutcome::Error(error) => assert_eq!(error.status, 404),
        other => panic!("{other:?}"),
    }
}

#[test]
fn rangePlanIsContiguous() {
    let candidate = |id: &str, start: u64, end: u64, sequence: u64| ResponseRangeCandidate {
        transactionId: id.to_string(),
        storedBytes: end - start + 1,
        start,
        end,
        sequence,
    };
    let (plan, captured) = buildMetadataPlan(
        &vec![
            candidate("b", 8, 19, 2),
            candidate("a", 0, 9, 1),
            candidate("c", 5, 7, 3),
            candidate("d", 30, 39, 4),
        ],
        100,
    );
    assert_eq!(captured, 20);
    let ids: Vec<&str> = plan.iter().map(|segment| segment.transactionId.as_str()).collect();
    assert_eq!(ids, vec!["a", "b"]);
    assert_eq!((plan[1].bodyOffset, plan[1].length), (2, 10));
    assert_eq!(buildMetadataPlan(&vec![candidate("x", 1, 5, 1)], 100).1, 0);
    let seam = seamWindow(10, 2).unwrap();
    assert_eq!((seam.virtualOffset, seam.bodyOffset, seam.length), (8, 0, 2));
    assert!(seamWindow(10, 0).is_none());
    let wide = seamWindow(1000, 900).unwrap();
    assert_eq!((wide.virtualOffset, wide.bodyOffset, wide.length), (936, 836, 64));
    let seam = |expected: &[u8], actual: &[u8]| SegmentObservation::Seam {
        expected: expected.to_vec(),
        actual: actual.to_vec(),
    };
    let gone = || CaptureError {
        kind: CaptureErrorKind::TransactionNotFound,
        detail: "gone".to_string(),
    };
    assert!(matches!(settleSegment(seam(&[1, 2], &[1, 2])), SegmentVerdict::Accept));
    assert!(matches!(settleSegment(seam(&[1, 2], &[1, 3])), SegmentVerdict::StopBefore));
    assert!(matches!(settleSegment(seam(&[1, 2], &[1])), SegmentVerdict::StopBefore));
    for lost in [SegmentObservation::BodyChanged, SegmentObservation::PrefixUnreadable] {
        assert!(matches!(settleSegment(lost), SegmentVerdict::Failed(error)
            if error.kind == CaptureErrorKind::BodyNotFound));
    }
    assert!(matches!(settleSegment(SegmentObservation::BodyUnreadable(gone())),
        SegmentVerdict::Failed(error) if error.kind == CaptureErrorKind::TransactionNotFound
            && error.detail == "gone"));
    let mut prefix = LeasedPrefix::new();
    assert!(matches!(prefix.leasePlannedSegments(&plan[0], seam(&[], &[])), LeaseVerdict::Taken));
    assert!(matches!(
        prefix.leasePlannedSegments(&plan[1], seam(&[1], &[2])),
        LeaseVerdict::EndBefore
    ));
    assert_eq!((prefix.segments.len(), prefix.capturedBytes), (1, plan[0].length));
    assert!(matches!(
        prefix.leasePlannedSegments(&plan[1], SegmentObservation::BodyUnreadable(gone())),
        LeaseVerdict::Failed(error) if error.detail == "gone"
    ));
    let endless = PlannedRangeSegment {
        candidate: 0,
        transactionId: String::new(),
        storedBytes: 0,
        bodyOffset: 0,
        length: u64::MAX,
    };
    assert!(matches!(
        prefix.leasePlannedSegments(&endless, seam(&[], &[])),
        LeaseVerdict::InvalidBodyLength
    ));
}

#[test]
fn previewRequestsAreAnswered() {
    let selected = |total: u64| SelectedResponse {
        statusCode: Some(206),
        body: Some(PreviewBodyMeta {
            contentType: "video/mp4".to_string(),
            encoding: String::new(),
            storedBytes: 10,
            originalBytes: 10,
            truncated: false,
        }),
        contentRange: Some(ClaimedRange { start: 0, end: 9, total }),
        hasStrongEntityTag: true,
    };
    let leased = || PreviewEvidence::Ranges {
        segmentCount: 2,
        capturedBytes: 10,
        contentType: "video/mp4".to_string(),
    };
    let whole =
        getResponseMediaPreview(&selected(10), leased(), false, &RangeHeader::Absent).unwrap();
    assert_eq!((whole.statusCode, whole.contentLength.as_str()), (200, "10"));
    assert_eq!(whole.preview.unwrap().status, "complete");
    let part = getResponseMediaPreview(
        &selected(20),
        leased(),
        true,
        &RangeHeader::Single("bytes=2-3".to_string()),
    )
    .unwrap();
    assert_eq!((part.statusCode, part.contentLength.as_str()), (206, "2"));
    assert!(part.stream.is_none());
    assert_eq!(part.preview.unwrap().status, "continuousPrefix");
    let full = getResponseMediaPreview(
        &selected(20),
        PreviewEvidence::CapacityExceeded,
        false,
        &RangeHeader::Absent,
    )
    .unwrap();
    assert_eq!(full.statusCode, 429);
    let mut bodiless = selected(20);
    bodiless.body = None;
    assert_eq!(
        getResponseMediaPreview(&bodiless, leased(), false, &RangeHeader::Absent)
            .unwrap_err()
            .status,
        404
    );
}

#[test]
fn virtualReadsCrossSegments() {
    let segments = vec![
        PreviewSegment { bodyOffset: 0, length: 10 },
        PreviewSegment { bodyOffset: 2, length: 10 },
    ];
    let reads = planVirtualRead(&segments, 8, 5).unwrap();
    let parts: Vec<(usize, u64, u64)> =
        reads.iter().map(|read| (read.segment, read.bodyOffset, read.length)).collect();
    assert_eq!(parts, vec![(0, 8, 2), (1, 2, 3)]);
    assert!(planVirtualRead(&segments, 18, 5).is_none());
}

#[test]
fn previewStreamsExactlyItsWindow() {
    let segments = vec![
        PreviewSegment { bodyOffset: 0, length: 10 },
        PreviewSegment { bodyOffset: 2, length: 10 },
    ];
    let mut state = streamPreviewBody(&segments, 8, 7);
    let mut sent: u64 = 0;
    loop {
        match state.nextPreviewChunk(&segments) {
            PreviewPoll::Finished => break,
            PreviewPoll::Read(read) => {
                sent += read.length;
                assert!(state
                    .settleChunk(&segments, read.length, ChunkOutcome::Received(read.length))
                    .is_ok());
            }
            PreviewPoll::Fail(error) => panic!("{error:?}"),
        }
    }
    assert_eq!(sent, 7);
    let mut short = streamPreviewBody(&segments, 0, 5);
    match short.nextPreviewChunk(&segments) {
        PreviewPoll::Read(read) => {
            assert_eq!(
                short.settleChunk(&segments, read.length, ChunkOutcome::Received(1)).unwrap_err(),
                PreviewStreamError::BodyChanged
            );
        }
        other => panic!("{other:?}"),
    }
    assert!(matches!(short.nextPreviewChunk(&segments), PreviewPoll::Finished));
}

#[test]
fn leasesAreBounded() {
    let mut budget = MediaPreviewLeaseBudget::new();
    let wanted = vec![("a".to_string(), 10usize), ("b".to_string(), 5)];
    let first = budget.reserve(&wanted).unwrap();
    let second = budget.reserve(&wanted).unwrap();
    assert_eq!(budget.pinnedBytes, 15);
    assert_eq!(budget.activeResponses, 2);
    budget.release(second);
    assert_eq!(budget.pinnedBytes, 15);
    budget.release(first);
    assert_eq!(budget.pinnedBytes, 0);
    assert_eq!(budget.activeHandles, 0);
    assert!(budget.entities.is_empty());
    assert!(budget.reserve(&vec![("big".to_string(), 1_073_741_825)]).is_none());
    let many: Vec<(String, usize)> = (0..65).map(|i| (format!("{i}"), 1)).collect();
    assert!(budget.reserve(&many).is_none());
    for _ in 0..16 {
        assert!(budget.reserve(&vec![("x".to_string(), 1)]).is_some());
    }
    assert!(budget.reserve(&vec![("x".to_string(), 1)]).is_none());
}

#[test]
fn isoTracksAreFound() {
    let boxed = |kind: &[u8; 4], payload: &[u8]| {
        let mut bytes = ((payload.len() + 8) as u32).to_be_bytes().to_vec();
        bytes.extend_from_slice(kind);
        bytes.extend_from_slice(payload);
        bytes
    };
    let handler = boxed(b"hdlr", b"\0\0\0\0\0\0\0\0soun\0\0\0\0");
    let media = boxed(b"mdia", &handler);
    let track = boxed(b"trak", &media);
    let mut file = boxed(b"ftyp", b"isom");
    file.extend(boxed(b"moov", &track));
    let inspect = |file: &[u8]| {
        let mut inspector = IsoInspector::new(file.len() as u64);
        while let Some((offset, length)) = inspector.request() {
            let from = offset as usize;
            let to = from + length as usize;
            inspector.supply(file.get(from..to).map(|part| part.to_vec()));
        }
        inspector.tracks
    };
    assert_eq!(
        inspect(&file),
        IsoTrackKinds { isIsoBmff: true, hasAudio: true, hasVideo: false }
    );
    assert!(!inspect(b"plain text, no boxes at all").isIsoBmff);
    assert_eq!(effectiveContentType("a/b", inspect(&file)), "audio/mp4");
    let video = IsoTrackKinds { isIsoBmff: true, hasAudio: true, hasVideo: true };
    assert_eq!(effectiveContentType("a/b", video), "video/mp4");
    let unknown = IsoTrackKinds { isIsoBmff: true, hasAudio: false, hasVideo: false };
    assert_eq!(effectiveContentType("a/b", unknown), "application/mp4");
    let none = IsoTrackKinds { isIsoBmff: false, hasAudio: false, hasVideo: false };
    assert_eq!(effectiveContentType("a/b", none), "a/b");
}
