//! Read-only media previews: one virtual body put together from recorded range responses.

pub mod isoTracks;
pub mod leaseBudget;
pub mod rangePlan;

use crate::controlApi::headerFields::{headerFields, headerTexts, readings, textsNamed};
use crate::controlApi::headerText::{isHeaderValue, isValidHeaderValue};
use crate::controlApi::httpControl::{
    captureLookupError, mapCaptureLookupError, ApiError, CaptureError, CaptureErrorKind,
};
use crate::text::{
    asciiLowered, charsOf, concatText, concatThree, copyText, decimal, decimalText,
    equalIgnoringAsciiCase, equalText, findChar, lawAsciiLowerCase, lawDecimalIsReadBack,
    lawSplitOnceUndoesPairing, lemmaIndexOf, optionalView, parseUnsigned, splitOnce,
    splitOnceText, trimText, trimmed, writtenUnsigned,
};
use vstd::prelude::*;

verus! {

/// How much of a resource a preview can play.
#[derive(Clone, Copy, Debug, PartialEq, Eq, Structural)]
pub enum MediaPreviewStatus {
    Complete,
    ContinuousPrefix,
    Incomplete,
}

impl MediaPreviewStatus {
    /// The stable value of the status header.
    pub fn label(self) -> (result: &'static str)
        ensures
            result@ == statusLabel(self),
    {
        match self {
            MediaPreviewStatus::Complete => "complete",
            MediaPreviewStatus::ContinuousPrefix => "continuousPrefix",
            MediaPreviewStatus::Incomplete => "incomplete",
        }
    }
}

/// The stable value of the status header.
pub open spec fn statusLabel(status: MediaPreviewStatus) -> Seq<char> {
    match status {
        MediaPreviewStatus::Complete => "complete"@,
        MediaPreviewStatus::ContinuousPrefix => "continuousPrefix"@,
        MediaPreviewStatus::Incomplete => "incomplete"@,
    }
}

// ---------------------------------------------------------------------------
// Ranges
// ---------------------------------------------------------------------------

/// What a request asks of the range: nothing, one range, or something that cannot be satisfied.
#[derive(Debug)]
pub enum RangeHeader {
    Absent,
    Single(String),
    Unsatisfiable,
}

/// Whether a reading is that of the `Range` values of a request: a repeated or unreadable value and a
/// list of ranges are not satisfiable. Nothing stands for a value that is not readable text.
pub open spec fn isRangeOf(values: Seq<Option<Seq<char>>>, range: RangeHeader) -> bool {
    match range {
        RangeHeader::Absent => values.len() == 0,
        RangeHeader::Single(text) => {
            &&& values.len() == 1
            &&& values[0] is Some
            &&& text@ == trimmed(values[0]->Some_0)
            &&& !text@.contains(',')
        },
        RangeHeader::Unsatisfiable => {
            ||| values.len() > 1
            ||| values.len() == 1 && values[0] is None
            ||| values.len() == 1 && trimmed(values[0]->Some_0).contains(',')
        },
    }
}

/// Reads the `Range` fields of a request.
pub fn requestedRange(headers: &http::HeaderMap<http::HeaderValue>) -> (result: RangeHeader)
    ensures
        isRangeOf(textsNamed(headerFields(*headers), asciiLowered("range"@)), result),
{
    proof {
        reveal_strlit("range");
    }
    readRange(&headerTexts(headers, "range"))
}

/// Reads the `Range` values of a request.
pub fn readRange(values: &Vec<Option<String>>) -> (result: RangeHeader)
    ensures
        isRangeOf(readings(values@), result),
{
    assert(readings(values@).len() == values@.len());
    if values.len() == 0 {
        return RangeHeader::Absent;
    }
    if values.len() > 1 {
        return RangeHeader::Unsatisfiable;
    }
    assert(readings(values@)[0] == optionalView(values@[0]));
    match &values[0] {
        None => RangeHeader::Unsatisfiable,
        Some(value) => {
            let range = trimText(value.as_str());
            let chars = charsOf(range.as_str());
            assert(chars@.skip(0) == range@);
            let comma = findChar(&chars, 0, ',');
            proof {
                lemmaIndexOf(range@, ',');
            }
            if comma < chars.len() {
                RangeHeader::Unsatisfiable
            } else {
                RangeHeader::Single(range)
            }
        },
    }
}

/// A closed interval of the virtual body.
#[derive(Clone, Copy, Debug, PartialEq, Eq, Structural)]
pub struct PreviewWindow {
    pub offset: u64,
    pub length: u64,
    pub end: u64,
}

/// The window `first..=last` of a body.
pub open spec fn windowOf(first: int, last: int) -> Option<PreviewWindow> {
    Some(
        PreviewWindow {
            offset: first as u64,
            length: (last - first + 1) as u64,
            end: last as u64,
        },
    )
}

/// The window that the bounds of a byte range ask for: `first-last`, `first-` or `-suffix`. How large
/// a written number is does not matter: one beyond the body is beyond it by any amount.
pub open spec fn boundsWindow(first: Seq<char>, last: Seq<char>, resource: u64) -> Option<
    PreviewWindow,
> {
    if first.len() == 0 {
        match writtenUnsigned(last) {
            Some(suffix) => if suffix == 0 {
                None
            } else if suffix < resource {
                windowOf(resource - suffix, resource - 1)
            } else {
                windowOf(0, resource - 1)
            },
            None => None,
        }
    } else {
        match writtenUnsigned(first) {
            Some(start) => if start >= resource {
                None
            } else if last.len() == 0 {
                windowOf(start as int, resource - 1)
            } else {
                match writtenUnsigned(last) {
                    Some(end) => if end >= resource {
                        windowOf(start as int, resource - 1)
                    } else if end < start {
                        None
                    } else {
                        windowOf(start as int, end as int)
                    },
                    None => None,
                }
            },
            None => None,
        }
    }
}

/// The window of a body that a range asks for; without a range it is the whole body.
pub open spec fn previewWindow(range: Option<Seq<char>>, resource: u64) -> Option<PreviewWindow> {
    match range {
        None => Some(
            PreviewWindow {
                offset: 0,
                length: resource,
                end: if resource == 0 { 0 } else { (resource - 1) as u64 },
            },
        ),
        Some(value) => match splitOnce(value, '=') {
            None => None,
            Some(unit) => match splitOnce(unit.1, '-') {
                None => None,
                Some(bounds) => if resource == 0 || asciiLowered(unit.0) != asciiLowered(
                    "bytes"@,
                ) {
                    None
                } else {
                    boundsWindow(bounds.0, bounds.1, resource)
                },
            },
        },
    }
}

/// Resolves one byte range against a body. An end beyond the body is cut to its last byte; a zero
/// suffix, a start beyond the body, an inverted interval and another unit are refused.
pub fn resolvePreviewWindow(range: Option<&str>, resourceBytes: u64) -> (result: Result<
    PreviewWindow,
    (),
>)
    ensures
        match result {
            Ok(window) => previewWindow(
                match range {
                    Some(value) => Some(value@),
                    None => None,
                },
                resourceBytes,
            ) == Some(window),
            Err(_) => previewWindow(
                match range {
                    Some(value) => Some(value@),
                    None => None,
                },
                resourceBytes,
            ) is None,
        },
{
    let value = match range {
        None => {
            let end = if resourceBytes == 0 {
                0
            } else {
                resourceBytes - 1
            };
            return Ok(PreviewWindow { offset: 0, length: resourceBytes, end });
        },
        Some(value) => value,
    };
    if resourceBytes == 0 {
        return Err(());
    }
    let (unit, bounds) = match splitOnceText(value, '=') {
        Some(parts) => parts,
        None => {
            return Err(());
        },
    };
    if !equalIgnoringAsciiCase(unit.as_str(), "bytes") {
        return Err(());
    }
    let (startText, endText) = match splitOnceText(bounds.as_str(), '-') {
        Some(parts) => parts,
        None => {
            return Err(());
        },
    };
    let offset: u64;
    let end: u64;
    if startText.as_str().is_empty() {
        match parseUnsigned(endText.as_str()) {
            None => {
                return Err(());
            },
            Some(suffix) => {
                if suffix == 0 {
                    return Err(());
                }
                offset = if suffix < resourceBytes {
                    resourceBytes - suffix
                } else {
                    0
                };
                end = resourceBytes - 1;
            },
        }
    } else {
        match parseUnsigned(startText.as_str()) {
            None => {
                return Err(());
            },
            Some(start) => {
                if start >= resourceBytes {
                    return Err(());
                }
                offset = start;
                if endText.as_str().is_empty() {
                    end = resourceBytes - 1;
                } else {
                    match parseUnsigned(endText.as_str()) {
                        None => {
                            return Err(());
                        },
                        Some(last) => {
                            end = if last >= resourceBytes {
                                resourceBytes - 1
                            } else {
                                last
                            };
                        },
                    }
                }
                if end < start {
                    return Err(());
                }
            },
        }
    }
    Ok(PreviewWindow { offset, length: end - offset + 1, end })
}

/// Every window lies within the body, and a range never gives an empty one.
pub proof fn lawWindowWithinBody(range: Option<Seq<char>>, resource: u64)
    ensures
        previewWindow(range, resource) matches Some(window) ==> {
            &&& window.offset + window.length <= resource
            &&& range is Some ==> window.length > 0 && window.end == window.offset + window.length
                - 1
        },
{
}

/// A range that names its first and its last byte gives exactly those bytes, cut to the end of the body;
/// one that begins behind its end or beyond the body gives nothing. The unit is written in any case.
pub proof fn lawNamedBytesAreGiven(unit: Seq<char>, first: nat, last: nat, resource: u64)
    requires
        asciiLowered(unit) == "bytes"@,
    ensures
        previewWindow(
            Some(unit + seq!['='] + (decimal(first) + seq!['-'] + decimal(last))),
            resource,
        ) == if first <= last && first < resource {
            let end = if last < resource {
                last as int
            } else {
                resource - 1
            };
            Some(
                PreviewWindow {
                    offset: first as u64,
                    length: (end - first + 1) as u64,
                    end: end as u64,
                },
            )
        } else {
            None::<PreviewWindow>
        },
{
    lawDecimalIsReadBack(first);
    lawDecimalIsReadBack(last);
    lemmaByteRange(unit, decimal(first), decimal(last), resource);
}

/// A range without an end runs to the end of the body, a range without a start gives that many last
/// bytes and at most all of them, and no other unit than bytes is understood.
pub proof fn lawOpenRangesReachTheEnd(unit: Seq<char>, number: nat, resource: u64)
    requires
        !unit.contains('='),
    ensures
        asciiLowered(unit) == "bytes"@ ==> previewWindow(
            Some(unit + seq!['='] + (decimal(number) + seq!['-'] + Seq::<char>::empty())),
            resource,
        ) == if number < resource {
            Some(
                PreviewWindow {
                    offset: number as u64,
                    length: (resource - number) as u64,
                    end: (resource - 1) as u64,
                },
            )
        } else {
            None::<PreviewWindow>
        },
        asciiLowered(unit) == "bytes"@ ==> previewWindow(
            Some(unit + seq!['='] + (Seq::<char>::empty() + seq!['-'] + decimal(number))),
            resource,
        ) == if number == 0 || resource == 0 {
            None::<PreviewWindow>
        } else {
            let length = if number < resource {
                number as u64
            } else {
                resource
            };
            Some(
                PreviewWindow {
                    offset: (resource - length) as u64,
                    length,
                    end: (resource - 1) as u64,
                },
            )
        },
        asciiLowered(unit) != "bytes"@ ==> forall|bounds: Seq<char>|
            previewWindow(Some(#[trigger] (unit + seq!['='] + bounds)), resource) is None,
{
    reveal_strlit("bytes");
    lawAsciiLowerCase("bytes"@);
    assert(asciiLowered("bytes"@) =~= "bytes"@);
    lawDecimalIsReadBack(number);
    if asciiLowered(unit) == "bytes"@ {
        lemmaByteRange(unit, decimal(number), Seq::empty(), resource);
        lemmaByteRange(unit, Seq::empty(), decimal(number), resource);
    }
    assert forall|bounds: Seq<char>| asciiLowered(unit) != "bytes"@ implies previewWindow(
        Some(#[trigger] (unit + seq!['='] + bounds)),
        resource,
    ) is None by {
        lawSplitOnceUndoesPairing(unit, '=', bounds);
    }
}

proof fn lemmaByteRange(unit: Seq<char>, first: Seq<char>, last: Seq<char>, resource: u64)
    requires
        asciiLowered(unit) == "bytes"@,
        forall|i: int| 0 <= i < first.len() ==> '0' <= #[trigger] first[i] <= '9',
    ensures
        previewWindow(Some(unit + seq!['='] + (first + seq!['-'] + last)), resource)
            == if resource == 0 {
            None
        } else {
            boundsWindow(first, last, resource)
        },
{
    reveal_strlit("bytes");
    lawAsciiLowerCase(unit);
    lawAsciiLowerCase("bytes"@);
    assert(asciiLowered("bytes"@) =~= "bytes"@);
    assert(!unit.contains('=')) by {
        if unit.contains('=') {
            let k = choose|k: int| 0 <= k < unit.len() && unit[k] == '=';
            assert(asciiLowered(unit)[k] == '=');
            assert("bytes"@[k] != '=');
        }
    }
    assert(!first.contains('-')) by {
        if first.contains('-') {
            let k = choose|k: int| 0 <= k < first.len() && first[k] == '-';
            assert('0' <= first[k]);
        }
    }
    lawSplitOnceUndoesPairing(unit, '=', first + seq!['-'] + last);
    lawSplitOnceUndoesPairing(first, '-', last);
}

// ---------------------------------------------------------------------------
// Responses
// ---------------------------------------------------------------------------

/// The body metadata that a preview depends on.
#[derive(Debug)]
pub struct PreviewBodyMeta {
    pub contentType: String,
    pub encoding: String,
    pub storedBytes: u64,
    pub originalBytes: u64,
    pub truncated: bool,
}

/// A preview that is ready to be answered.
#[derive(Debug)]
pub struct MediaPreviewBody {
    pub status: MediaPreviewStatus,
    pub contentType: String,
    pub segmentCount: u64,
    pub capturedBytes: u64,
    pub totalBytes: u64,
    pub hasLease: bool,
}

/// The metadata headers of a preview.
#[derive(Debug)]
pub struct PreviewHeaders {
    pub status: String,
    pub capturedBytes: String,
    pub totalBytes: String,
    pub segmentCount: String,
    pub contentType: String,
}

/// A whole preview response but for the bytes of its body.
#[derive(Debug)]
pub struct PreviewResponse {
    pub statusCode: u16,
    pub acceptsRanges: bool,
    pub contentLength: String,
    pub contentRange: Option<String>,
    pub retryAfter: Option<String>,
    pub preview: Option<PreviewHeaders>,
    pub stream: Option<PreviewWindow>,
}

/// The answer to a preview that the budget has no room for.
pub open spec fn isCapacityResponse(response: PreviewResponse) -> bool {
    &&& response.statusCode == 429
    &&& !response.acceptsRanges
    &&& response.contentLength@ == "0"@
    &&& response.contentRange is None
    &&& response.retryAfter is Some
    &&& response.retryAfter->Some_0@ == "1"@
    &&& response.preview is None
    &&& response.stream is None
}

/// A response without a body that only tells its length and, at times, when to come back.
pub fn previewCapacityExceeded() -> (result: PreviewResponse)
    ensures
        isCapacityResponse(result),
{
    PreviewResponse {
        statusCode: 429,
        acceptsRanges: false,
        contentLength: copyText("0"),
        contentRange: None,
        retryAfter: Some(copyText("1")),
        preview: None,
        stream: None,
    }
}

/// The answer to a range that cannot be satisfied: it tells the length of the virtual body.
pub open spec fn isRangeNotSatisfiable(response: PreviewResponse, capturedBytes: nat) -> bool {
    &&& response.statusCode == 416
    &&& response.acceptsRanges
    &&& response.contentLength@ == "0"@
    &&& response.contentRange is Some
    &&& response.contentRange->Some_0@ == "bytes */"@ + decimal(capturedBytes)
    &&& response.retryAfter is None
    &&& response.preview is None
    &&& response.stream is None
}

/// Answers a range that cannot be satisfied.
pub fn rangeNotSatisfiable(capturedBytes: u64) -> (result: PreviewResponse)
    ensures
        isRangeNotSatisfiable(result, capturedBytes as nat),
{
    let length = decimalText(capturedBytes);
    PreviewResponse {
        statusCode: 416,
        acceptsRanges: true,
        contentLength: copyText("0"),
        contentRange: Some(concatText("bytes */", length.as_str())),
        retryAfter: None,
        preview: None,
        stream: None,
    }
}

/// The value of `Content-Range` for a window.
pub open spec fn contentRangeText(window: PreviewWindow, capturedBytes: nat) -> Seq<char> {
    "bytes "@ + decimal(window.offset as nat) + "-"@ + decimal(window.end as nat) + "/"@ + decimal(
        capturedBytes,
    )
}

/// The answer with a window of the virtual body.
pub open spec fn isWindowResponse(
    response: PreviewResponse,
    preview: MediaPreviewBody,
    partial: bool,
    omitBody: bool,
    window: PreviewWindow,
) -> bool {
    &&& response.statusCode == if partial { 206u16 } else { 200u16 }
    &&& response.acceptsRanges
    &&& response.contentLength@ == decimal(window.length as nat)
    &&& response.retryAfter is None
    &&& if partial {
        response.contentRange is Some && response.contentRange->Some_0@ == contentRangeText(
            window,
            preview.capturedBytes as nat,
        )
    } else {
        response.contentRange is None
    }
    &&& response.stream == if omitBody || !preview.hasLease { None } else { Some(window) }
    &&& response.preview matches Some(headers) && {
        &&& headers.status@ == statusLabel(preview.status)
        &&& headers.capturedBytes@ == decimal(preview.capturedBytes as nat)
        &&& headers.totalBytes@ == decimal(preview.totalBytes as nat)
        &&& headers.segmentCount@ == decimal(preview.segmentCount as nat)
        &&& headers.contentType@ == if isHeaderValue(preview.contentType@) {
            preview.contentType@
        } else {
            "application/octet-stream"@
        }
    }
}

/// The range that a header value asks for.
pub open spec fn rangeText(range: RangeHeader) -> Option<Seq<char>> {
    match range {
        RangeHeader::Single(value) => Some(value@),
        _ => None,
    }
}

/// Whether a response answers a request for a preview.
pub open spec fn isPreviewResponse(
    response: PreviewResponse,
    preview: MediaPreviewBody,
    omitBody: bool,
    range: RangeHeader,
) -> bool {
    match previewWindow(rangeText(range), preview.capturedBytes) {
        Some(window) => if range is Unsatisfiable {
            isRangeNotSatisfiable(response, preview.capturedBytes as nat)
        } else {
            isWindowResponse(response, preview, range is Single, omitBody, window)
        },
        None => isRangeNotSatisfiable(response, preview.capturedBytes as nat),
    }
}

/// Answers a preview request: the headers of `HEAD` and `GET` are the same, only the body differs.
pub fn intoResponse(preview: &MediaPreviewBody, omitBody: bool, range: &RangeHeader) -> (result:
    PreviewResponse)
    ensures
        isPreviewResponse(result, *preview, omitBody, *range),
{
    let resolved = match range {
        RangeHeader::Unsatisfiable => {
            return rangeNotSatisfiable(preview.capturedBytes);
        },
        RangeHeader::Absent => resolvePreviewWindow(None, preview.capturedBytes),
        RangeHeader::Single(value) => resolvePreviewWindow(
            Some(value.as_str()),
            preview.capturedBytes,
        ),
    };
    let window = match resolved {
        Ok(window) => window,
        Err(_) => {
            return rangeNotSatisfiable(preview.capturedBytes);
        },
    };
    let partial = match range {
        RangeHeader::Single(_) => true,
        _ => false,
    };
    let contentRange = if partial {
        let first = decimalText(window.offset);
        let last = decimalText(window.end);
        let captured = decimalText(preview.capturedBytes);
        let mut text = concatThree("bytes ", first.as_str(), "-");
        text.append(last.as_str());
        text.append("/");
        text.append(captured.as_str());
        Some(text)
    } else {
        None
    };
    let contentType = if isValidHeaderValue(preview.contentType.as_str()) {
        copyText(preview.contentType.as_str())
    } else {
        copyText("application/octet-stream")
    };
    PreviewResponse {
        statusCode: if partial {
            206
        } else {
            200
        },
        acceptsRanges: true,
        contentLength: decimalText(window.length),
        contentRange,
        retryAfter: None,
        preview: Some(
            PreviewHeaders {
                status: copyText(preview.status.label()),
                capturedBytes: decimalText(preview.capturedBytes),
                totalBytes: decimalText(preview.totalBytes),
                segmentCount: decimalText(preview.segmentCount),
                contentType,
            },
        ),
        stream: if omitBody || !preview.hasLease {
            None
        } else {
            Some(window)
        },
    }
}

/// A preview that has nothing to play.
pub fn incompleteBody(contentType: &str, totalBytes: u64) -> (result: MediaPreviewBody)
    ensures
        result.status == MediaPreviewStatus::Incomplete,
        result.contentType@ == contentType@,
        result.segmentCount == 0,
        result.capturedBytes == 0,
        result.totalBytes == totalBytes,
        !result.hasLease,
{
    MediaPreviewBody {
        status: MediaPreviewStatus::Incomplete,
        contentType: copyText(contentType),
        segmentCount: 0,
        capturedBytes: 0,
        totalBytes,
        hasLease: false,
    }
}

// ---------------------------------------------------------------------------
// The preview of one response
// ---------------------------------------------------------------------------

/// The interval that a response claims with its only valid `Content-Range`.
#[derive(Clone, Copy, Debug, PartialEq, Eq, Structural)]
pub struct ClaimedRange {
    pub start: u64,
    pub end: u64,
    pub total: u64,
}

/// What a preview depends on of the selected response.
#[derive(Debug)]
pub struct SelectedResponse {
    pub statusCode: Option<u16>,
    pub body: Option<PreviewBodyMeta>,
    pub contentRange: Option<ClaimedRange>,
    pub hasStrongEntityTag: bool,
}

/// How a preview goes on once the selected response is known.
#[derive(Clone, Copy, Debug, PartialEq, Eq, Structural)]
pub enum PreviewSource {
    /// The response has no body.
    NoBody,
    /// There is nothing to play of a resource of this length.
    Nothing(u64),
    /// The body of the response alone.
    OwnBody { total: u64, status: MediaPreviewStatus },
    /// The recorded ranges of the same entity.
    Ranges(u64),
}

/// Whether a body is stored as it is played.
pub open spec fn isIdentity(encoding: Seq<char>) -> bool {
    encoding.len() == 0 || asciiLowered(encoding) == asciiLowered("identity"@)
}

/// How a preview goes on once the selected response is known.
pub open spec fn previewSource(selected: SelectedResponse) -> PreviewSource {
    match selected.body {
        None => PreviewSource::NoBody,
        Some(body) => match selected.contentRange {
            None => if selected.statusCode == Some(206u16) || !isIdentity(body.encoding@) {
                PreviewSource::Nothing(body.originalBytes)
            } else {
                PreviewSource::OwnBody {
                    total: body.originalBytes,
                    status: if body.truncated {
                        MediaPreviewStatus::ContinuousPrefix
                    } else {
                        MediaPreviewStatus::Complete
                    },
                }
            },
            Some(range) => if !isIdentity(body.encoding@) {
                PreviewSource::Nothing(range.total)
            } else if selected.hasStrongEntityTag {
                PreviewSource::Ranges(range.total)
            } else if range.start != 0 || body.truncated || body.originalBytes != range.end + 1
                || body.storedBytes != range.end + 1 {
                PreviewSource::Nothing(range.total)
            } else {
                PreviewSource::OwnBody {
                    total: range.total,
                    status: playableStatus(body.storedBytes, range.total),
                }
            },
        },
    }
}

/// A prefix that reaches the end is complete.
pub open spec fn playableStatus(captured: u64, total: u64) -> MediaPreviewStatus {
    if captured == total {
        MediaPreviewStatus::Complete
    } else {
        MediaPreviewStatus::ContinuousPrefix
    }
}

/// Decides where the bytes of a preview come from. A partial response without a valid range is
/// never taken for a whole one, and ranges are only joined across responses under a strong entity
/// tag.
pub fn selectPreviewSource(selected: &SelectedResponse) -> (result: PreviewSource)
    requires
        selected.contentRange matches Some(range) ==> range.start <= range.end < u64::MAX,
    ensures
        result == previewSource(*selected),
{
    let body = match &selected.body {
        None => {
            return PreviewSource::NoBody;
        },
        Some(body) => body,
    };
    let identity = body.encoding.as_str().is_empty() || equalIgnoringAsciiCase(
        body.encoding.as_str(),
        "identity",
    );
    let isPartial = match selected.statusCode {
        Some(code) => code == 206,
        None => false,
    };
    match selected.contentRange {
        None => {
            if isPartial || !identity {
                PreviewSource::Nothing(body.originalBytes)
            } else {
                let status = if body.truncated {
                    MediaPreviewStatus::ContinuousPrefix
                } else {
                    MediaPreviewStatus::Complete
                };
                PreviewSource::OwnBody { total: body.originalBytes, status }
            }
        },
        Some(range) => {
            if !identity {
                return PreviewSource::Nothing(range.total);
            }
            if selected.hasStrongEntityTag {
                return PreviewSource::Ranges(range.total);
            }
            let rangeBytes = range.end - range.start + 1;
            if range.start != 0 || body.truncated || body.originalBytes != rangeBytes
                || body.storedBytes != rangeBytes {
                return PreviewSource::Nothing(range.total);
            }
            PreviewSource::OwnBody {
                total: range.total,
                status: if body.storedBytes == range.total {
                    MediaPreviewStatus::Complete
                } else {
                    MediaPreviewStatus::ContinuousPrefix
                },
            }
        },
    }
}

/// A response that was recorded whole plays: where it claims no range, is no partial one and is stored
/// as it is played, the preview plays its own body, to its full length, and is complete exactly where
/// nothing was cut off.
pub proof fn lawRecordedResponsePlays(selected: SelectedResponse, body: PreviewBodyMeta)
    requires
        selected.body == Some(body),
        selected.contentRange is None,
        selected.statusCode != Some(206u16),
        body.encoding@.len() == 0 || asciiLowered(body.encoding@) == "identity"@,
    ensures
        previewSource(selected) matches PreviewSource::OwnBody { total, status } && total
            == body.originalBytes && (status == MediaPreviewStatus::Complete <==> !body.truncated)
            && (status == MediaPreviewStatus::ContinuousPrefix <==> body.truncated),
{
    lemmaIdentityWord();
}

/// What a preview cannot read it does not play: neither a body in another coding nor a partial response
/// that does not say which part it is. The length that is told is the claimed one where there is one.
pub proof fn lawUnreadableBodyIsNotPlayed(selected: SelectedResponse, body: PreviewBodyMeta)
    requires
        selected.body == Some(body),
    ensures
        body.encoding@.len() > 0 && asciiLowered(body.encoding@) != "identity"@ ==> previewSource(
            selected,
        ) == PreviewSource::Nothing(
            match selected.contentRange {
                Some(range) => range.total,
                None => body.originalBytes,
            },
        ),
        selected.contentRange is None && selected.statusCode == Some(206u16) ==> previewSource(
            selected,
        ) == PreviewSource::Nothing(body.originalBytes),
{
    lemmaIdentityWord();
}

/// A response that claims a range: under a strong entity tag the ranges of the same entity are joined,
/// whatever this one holds. Without one the response plays alone, and only where it is the beginning of
/// the resource and holds exactly the bytes that it claims; it is complete where these are all.
pub proof fn lawClaimedRangePlays(
    selected: SelectedResponse,
    body: PreviewBodyMeta,
    range: ClaimedRange,
)
    requires
        selected.body == Some(body),
        selected.contentRange == Some(range),
        range.start <= range.end < u64::MAX,
        body.encoding@.len() == 0 || asciiLowered(body.encoding@) == "identity"@,
    ensures
        selected.hasStrongEntityTag <==> previewSource(selected) == PreviewSource::Ranges(
            range.total,
        ),
        !selected.hasStrongEntityTag && range.start == 0 && !body.truncated && body.storedBytes
            == body.originalBytes && body.storedBytes == range.end + 1 ==> (previewSource(selected)
            matches PreviewSource::OwnBody { total, status } && total == range.total && (status
            == MediaPreviewStatus::Complete <==> range.end + 1 == range.total) && status
            != MediaPreviewStatus::Incomplete),
        !selected.hasStrongEntityTag && (range.start > 0 || body.truncated || body.storedBytes
            != range.end + 1 || body.originalBytes != range.end + 1) ==> previewSource(selected)
            == PreviewSource::Nothing(range.total),
{
    lemmaIdentityWord();
}

/// A response without a body has none to play, whatever else it says.
pub proof fn lawNoBodyNoPreview(selected: SelectedResponse)
    ensures
        selected.body is None <==> previewSource(selected) == PreviewSource::NoBody,
{
}

proof fn lemmaIdentityWord()
    ensures
        asciiLowered("identity"@) == "identity"@,
{
    reveal_strlit("identity");
    assert(asciiLowered("identity"@) =~= "identity"@);
}

/// What the work outside gave for the selected source.
#[derive(Debug)]
pub enum PreviewEvidence {
    /// The budget refused the reservation.
    CapacityExceeded,
    /// The bodies could not be found or leased.
    LeaseFailed(CaptureError),
    /// The body of the response is leased. `meta` is what the lease says of it, `contentType` the
    /// type to announce.
    OwnBody { meta: PreviewBodyMeta, contentType: String },
    /// The planned ranges are leased, as far as their seams were verified.
    Ranges { segmentCount: u64, capturedBytes: u64, contentType: String },
}

/// Whether evidence comes from the work that a source asks for.
pub open spec fn evidenceFits(source: PreviewSource, evidence: PreviewEvidence) -> bool {
    match source {
        PreviewSource::NoBody => true,
        PreviewSource::Nothing(_) => true,
        PreviewSource::OwnBody { .. } => !(evidence is Ranges),
        PreviewSource::Ranges(_) => !(evidence is OwnBody),
    }
}

/// Whether two descriptions are of the same body.
pub open spec fn isSameBody(left: PreviewBodyMeta, right: PreviewBodyMeta) -> bool {
    &&& left.contentType@ == right.contentType@
    &&& left.encoding@ == right.encoding@
    &&& left.storedBytes == right.storedBytes
    &&& left.originalBytes == right.originalBytes
    &&& left.truncated == right.truncated
}

impl PreviewBodyMeta {
    /// Whether two descriptions are of the same body.
    pub fn sameAs(&self, other: &PreviewBodyMeta) -> (result: bool)
        ensures
            result == isSameBody(*self, *other),
    {
        equalText(self.contentType.as_str(), other.contentType.as_str()) && equalText(
            self.encoding.as_str(),
            other.encoding.as_str(),
        ) && self.storedBytes == other.storedBytes && self.originalBytes == other.originalBytes
            && self.truncated == other.truncated
    }
}

/// Whether a preview plays what is leased.
pub open spec fn isPlayable(
    preview: MediaPreviewBody,
    status: MediaPreviewStatus,
    contentType: Seq<char>,
    segmentCount: u64,
    captured: u64,
    total: u64,
) -> bool {
    &&& preview.status == status
    &&& preview.contentType@ == contentType
    &&& preview.segmentCount == segmentCount
    &&& preview.capturedBytes == captured
    &&& preview.totalBytes == total
    &&& preview.hasLease
}

/// How a preview ends.
#[derive(Debug)]
pub enum PreviewOutcome {
    Body(MediaPreviewBody),
    CapacityExceeded,
    Error(ApiError),
}

/// The type that the body of a response is declared as.
pub open spec fn declaredType(selected: SelectedResponse) -> Seq<char> {
    match selected.body {
        Some(body) => body.contentType@,
        None => Seq::empty(),
    }
}

/// Whether a preview ends because the body is not there.
pub open spec fn isMissingBody(outcome: PreviewOutcome) -> bool {
    outcome matches PreviewOutcome::Error(error) && error@ == captureLookupError(
        CaptureErrorKind::BodyNotFound,
        Seq::empty(),
    )
}

/// Whether an outcome is the one that a selected response and the evidence call for. A lease that
/// speaks of another body than the selected one counts for nothing, and without a verified range
/// there is nothing to play.
pub open spec fn isPreviewOutcome(
    selected: SelectedResponse,
    evidence: PreviewEvidence,
    outcome: PreviewOutcome,
) -> bool {
    match previewSource(selected) {
        PreviewSource::NoBody => isMissingBody(outcome),
        PreviewSource::Nothing(total) => outcome matches PreviewOutcome::Body(preview)
            && isIncomplete(preview, declaredType(selected), total),
        PreviewSource::OwnBody { total, status } => match evidence {
            PreviewEvidence::OwnBody { meta, contentType } => if isSameBody(
                meta,
                selected.body->Some_0,
            ) {
                outcome matches PreviewOutcome::Body(preview) && isPlayable(
                    preview,
                    status,
                    contentType@,
                    1,
                    meta.storedBytes,
                    total,
                )
            } else {
                isMissingBody(outcome)
            },
            _ => isRefusal(evidence, outcome),
        },
        PreviewSource::Ranges(total) => match evidence {
            PreviewEvidence::Ranges { segmentCount, capturedBytes, contentType } => {
                &&& outcome matches PreviewOutcome::Body(preview)
                &&& if segmentCount == 0 {
                    isIncomplete(outcome->Body_0, declaredType(selected), total)
                } else {
                    isPlayable(
                        outcome->Body_0,
                        playableStatus(capturedBytes, total),
                        contentType@,
                        segmentCount,
                        capturedBytes,
                        total,
                    )
                }
            },
            _ => isRefusal(evidence, outcome),
        },
    }
}

/// Whether a preview says that there is nothing to play.
pub open spec fn isIncomplete(preview: MediaPreviewBody, contentType: Seq<char>, total: u64) -> bool {
    &&& preview.status == MediaPreviewStatus::Incomplete
    &&& preview.contentType@ == contentType
    &&& preview.segmentCount == 0
    &&& preview.capturedBytes == 0
    &&& preview.totalBytes == total
    &&& !preview.hasLease
}

/// Whether an outcome passes on why nothing was leased.
pub open spec fn isRefusal(evidence: PreviewEvidence, outcome: PreviewOutcome) -> bool {
    match evidence {
        PreviewEvidence::CapacityExceeded => outcome is CapacityExceeded,
        PreviewEvidence::LeaseFailed(error) => outcome matches PreviewOutcome::Error(answer)
            && answer@ == captureLookupError(error.kind, error.detail@),
        _ => false,
    }
}

/// Answers for a body that is not there.
fn missingBody() -> (result: PreviewOutcome)
    ensures
        isMissingBody(result),
{
    PreviewOutcome::Error(
        mapCaptureLookupError(
            CaptureError { kind: CaptureErrorKind::BodyNotFound, detail: String::new() },
        ),
    )
}

/// Settles a preview from the selected response and from what leasing its bodies gave.
pub fn concludePreview(selected: &SelectedResponse, evidence: PreviewEvidence) -> (result:
    PreviewOutcome)
    requires
        selected.contentRange matches Some(claimed) ==> claimed.start <= claimed.end < u64::MAX,
        evidenceFits(previewSource(*selected), evidence),
    ensures
        isPreviewOutcome(*selected, evidence, result),
{
    let source = selectPreviewSource(selected);
    let body = match &selected.body {
        Some(body) => body,
        None => {
            return missingBody();
        },
    };
    let declared = body.contentType.as_str();
    let total = match source {
        PreviewSource::NoBody => {
            return missingBody();
        },
        PreviewSource::Nothing(total) => {
            return PreviewOutcome::Body(incompleteBody(declared, total));
        },
        PreviewSource::OwnBody { total, .. } => total,
        PreviewSource::Ranges(total) => total,
    };
    match evidence {
        PreviewEvidence::CapacityExceeded => PreviewOutcome::CapacityExceeded,
        PreviewEvidence::LeaseFailed(error) => PreviewOutcome::Error(mapCaptureLookupError(error)),
        PreviewEvidence::OwnBody { meta, contentType } => {
            if !meta.sameAs(body) {
                return missingBody();
            }
            let status = match source {
                PreviewSource::OwnBody { status, .. } => status,
                _ => MediaPreviewStatus::Incomplete,
            };
            PreviewOutcome::Body(
                MediaPreviewBody {
                    status,
                    contentType,
                    segmentCount: 1,
                    capturedBytes: meta.storedBytes,
                    totalBytes: total,
                    hasLease: true,
                },
            )
        },
        PreviewEvidence::Ranges { segmentCount, capturedBytes, contentType } => {
            if segmentCount == 0 {
                return PreviewOutcome::Body(incompleteBody(declared, total));
            }
            let status = if capturedBytes == total {
                MediaPreviewStatus::Complete
            } else {
                MediaPreviewStatus::ContinuousPrefix
            };
            PreviewOutcome::Body(
                MediaPreviewBody {
                    status,
                    contentType,
                    segmentCount,
                    capturedBytes,
                    totalBytes: total,
                    hasLease: true,
                },
            )
        },
    }
}

/// Whether an answer is the one for how a preview ended.
pub open spec fn answersOutcome(
    answer: Result<PreviewResponse, ApiError>,
    outcome: PreviewOutcome,
    omitBody: bool,
    range: RangeHeader,
) -> bool {
    match outcome {
        PreviewOutcome::Body(preview) => answer matches Ok(response) && isPreviewResponse(
            response,
            preview,
            omitBody,
            range,
        ),
        PreviewOutcome::CapacityExceeded => answer matches Ok(response) && isCapacityResponse(
            response,
        ),
        PreviewOutcome::Error(error) => answer == Err::<PreviewResponse, ApiError>(error),
    }
}

/// Answers a request for the preview of a recorded response. `evidence` is what leasing the bodies gave
/// that `selectPreviewSource` asks for; where it asks for none, it does not matter.
pub fn getResponseMediaPreview(
    selected: &SelectedResponse,
    evidence: PreviewEvidence,
    omitBody: bool,
    range: &RangeHeader,
) -> (result: Result<PreviewResponse, ApiError>)
    requires
        selected.contentRange matches Some(claimed) ==> claimed.start <= claimed.end < u64::MAX,
        evidenceFits(previewSource(*selected), evidence),
    ensures
        exists|outcome: PreviewOutcome|
            #![trigger answersOutcome(result, outcome, omitBody, *range)]
            isPreviewOutcome(*selected, evidence, outcome) && answersOutcome(
                result,
                outcome,
                omitBody,
                *range,
            ),
{
    let outcome = concludePreview(selected, evidence);
    let ghost ended = outcome;
    let answer = match outcome {
        PreviewOutcome::Body(preview) => Ok(intoResponse(&preview, omitBody, range)),
        PreviewOutcome::CapacityExceeded => Ok(previewCapacityExceeded()),
        PreviewOutcome::Error(error) => Err(error),
    };
    assert(answersOutcome(answer, ended, omitBody, *range));
    answer
}

/// What is leased is played: the preview of a response's own body is one segment of all its stored bytes,
/// under the type that was found for it.
pub proof fn lawLeasedBodyIsPlayed(
    selected: SelectedResponse,
    total: u64,
    status: MediaPreviewStatus,
    meta: PreviewBodyMeta,
    contentType: String,
    outcome: PreviewOutcome,
)
    requires
        previewSource(selected) == (PreviewSource::OwnBody { total, status }),
        selected.body == Some(meta),
        isPreviewOutcome(selected, PreviewEvidence::OwnBody { meta, contentType }, outcome),
    ensures
        outcome matches PreviewOutcome::Body(preview) && preview.hasLease && preview.segmentCount
            == 1 && preview.capturedBytes == meta.storedBytes && preview.totalBytes == total
            && preview.status == status && preview.contentType@ == contentType@,
{
}

/// Joined ranges are played as far as they were leased: as many segments and bytes as were verified,
/// complete exactly where they reach the end of the resource. Without any there is nothing to play.
pub proof fn lawJoinedRangesArePlayed(
    selected: SelectedResponse,
    total: u64,
    segmentCount: u64,
    capturedBytes: u64,
    contentType: String,
    outcome: PreviewOutcome,
)
    requires
        previewSource(selected) == PreviewSource::Ranges(total),
        isPreviewOutcome(
            selected,
            PreviewEvidence::Ranges { segmentCount, capturedBytes, contentType },
            outcome,
        ),
    ensures
        outcome matches PreviewOutcome::Body(preview) && preview.totalBytes == total
            && preview.segmentCount == segmentCount && preview.hasLease == (segmentCount > 0),
        segmentCount > 0 ==> outcome->Body_0.capturedBytes == capturedBytes
            && outcome->Body_0.contentType@ == contentType@ && (outcome->Body_0.status
            == MediaPreviewStatus::Complete <==> capturedBytes == total) && outcome->Body_0.status
            != MediaPreviewStatus::Incomplete,
        segmentCount == 0 ==> outcome->Body_0.capturedBytes == 0 && outcome->Body_0.status
            == MediaPreviewStatus::Incomplete,
{
}

/// Why nothing could be leased is told as it is: a full budget asks to come back, and a body that cannot
/// be leased, or turned out to be another one, is not found.
pub proof fn lawFailedLeaseIsTold(
    selected: SelectedResponse,
    evidence: PreviewEvidence,
    outcome: PreviewOutcome,
)
    requires
        previewSource(selected) is OwnBody || previewSource(selected) is Ranges,
        evidenceFits(previewSource(selected), evidence),
        isPreviewOutcome(selected, evidence, outcome),
    ensures
        evidence is CapacityExceeded <==> outcome is CapacityExceeded,
        evidence matches PreviewEvidence::LeaseFailed(error) ==> (outcome
            matches PreviewOutcome::Error(answer) && answer@ == captureLookupError(
            error.kind,
            error.detail@,
        )),
        evidence matches PreviewEvidence::OwnBody { meta, contentType } ==> (outcome is Error <==> {
            ||| meta.contentType@ != selected.body->Some_0.contentType@
            ||| meta.encoding@ != selected.body->Some_0.encoding@
            ||| meta.storedBytes != selected.body->Some_0.storedBytes
            ||| meta.originalBytes != selected.body->Some_0.originalBytes
            ||| meta.truncated != selected.body->Some_0.truncated
        }),
{
}

/// A preview is sent as it was asked for: without a range all that was captured, with one the bytes of
/// its window, and what cannot be satisfied is refused with the captured length. The metadata is told
/// either way.
pub proof fn lawPreviewSendsWhatWasAsked(
    preview: MediaPreviewBody,
    response: PreviewResponse,
    range: RangeHeader,
)
    requires
        isPreviewResponse(response, preview, false, range),
    ensures
        range is Absent ==> response.statusCode == 200 && response.contentRange is None
            && response.contentLength@ == decimal(preview.capturedBytes as nat),
        range is Absent && preview.hasLease ==> (response.stream matches Some(window)
            && window.offset == 0 && window.length == preview.capturedBytes),
        range is Unsatisfiable ==> response.statusCode == 416,
        range matches RangeHeader::Single(text) ==> match previewWindow(
            Some(text@),
            preview.capturedBytes,
        ) {
            Some(window) => response.statusCode == 206 && response.contentLength@ == decimal(
                window.length as nat,
            ) && (preview.hasLease ==> response.stream == Some(window)) && optionalView(
                response.contentRange,
            ) == Some(
                "bytes "@ + decimal(window.offset as nat) + "-"@ + decimal(window.end as nat)
                    + "/"@ + decimal(preview.capturedBytes as nat),
            ),
            None => response.statusCode == 416,
        },
        response.statusCode == 416 ==> response.stream is None && optionalView(
            response.contentRange,
        ) == Some("bytes */"@ + decimal(preview.capturedBytes as nat)),
        response.statusCode != 416 ==> (response.preview matches Some(headers)
            && headers.capturedBytes@ == decimal(preview.capturedBytes as nat)
            && headers.totalBytes@ == decimal(preview.totalBytes as nat) && headers.segmentCount@
            == decimal(preview.segmentCount as nat) && (isHeaderValue(preview.contentType@)
            ==> headers.contentType@ == preview.contentType@)),
        response.acceptsRanges,
{
}

/// What is announced of a preview never depends on whether its bytes are asked for, and nothing is
/// streamed of a resource that has nothing to play.
pub proof fn lawHeadAnnouncesWhatGetSends(
    preview: MediaPreviewBody,
    head: PreviewResponse,
    get: PreviewResponse,
    range: RangeHeader,
)
    requires
        isPreviewResponse(head, preview, true, range),
        isPreviewResponse(get, preview, false, range),
    ensures
        head.statusCode == get.statusCode,
        head.contentLength@ == get.contentLength@,
        head.contentRange is Some <==> get.contentRange is Some,
        head.stream is None,
        !preview.hasLease ==> get.stream is None,
{
}

/// A player that comes while there is no room is told to come back after a second, and gets no body.
pub proof fn lawFullRoomAsksToWait(
    answer: Result<PreviewResponse, ApiError>,
    omitBody: bool,
    range: RangeHeader,
)
    requires
        answersOutcome(answer, PreviewOutcome::CapacityExceeded, omitBody, range),
    ensures
        answer is Ok,
        answer->Ok_0.statusCode == 429,
        optionalView(answer->Ok_0.retryAfter) == Some("1"@),
        answer->Ok_0.contentLength@ == "0"@,
        answer->Ok_0.contentRange is None,
        answer->Ok_0.stream is None && answer->Ok_0.preview is None && !answer->Ok_0.acceptsRanges,
{
}

/// An error is answered as it is, and a body only as a preview of it.
pub proof fn lawOutcomeIsAnswered(
    answer: Result<PreviewResponse, ApiError>,
    error: ApiError,
    omitBody: bool,
    range: RangeHeader,
)
    ensures
        answersOutcome(answer, PreviewOutcome::Error(error), omitBody, range) <==> answer
            == Err::<PreviewResponse, ApiError>(error),
        forall|preview: MediaPreviewBody|
            #[trigger] answersOutcome(answer, PreviewOutcome::Body(preview), omitBody, range) ==> answer
                is Ok,
{
}

/// A range is asked for by one readable line without a comma; no line asks for everything, and anything else cannot
/// be met.
pub proof fn lawOneRangeIsAskedFor(values: Seq<Option<Seq<char>>>, range: RangeHeader)
    requires
        isRangeOf(values, range),
    ensures
        range is Absent <==> values.len() == 0,
        range is Single <==> values.len() == 1 && values[0] is Some && !trimmed(
            values[0]->Some_0,
        ).contains(','),
        range matches RangeHeader::Single(text) ==> text@ == trimmed(values[0]->Some_0),
        values.len() > 1 ==> range is Unsatisfiable,
{
}

} // verus!
