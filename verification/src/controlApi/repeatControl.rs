//! Sending requests again: composing them, replaying recorded ones and running load tests.

pub mod latency;
pub mod loadTests;
pub mod replayExecution;

use crate::controlApi::headerFields::{
    appendHeader, copyFields, emptyHeaders, fieldAppended, fieldReplaced, fieldTexts,
    headerFields, isHeaderName, isHttpMethod, isToken, isValidHeaderName, lawAddedValueComesLast,
    lawAppendAddsOneField, lawFirstValueIsTheFirst, lawReplacedFieldIsSingle,
    lawReplacingKeepsOtherValues, replaceHeader, valuesNamed, FieldView, HeaderField,
};
use crate::controlApi::headerText::{isHeaderValue, isValidHeaderValue};
use crate::controlApi::httpControl::{
    captureLookupError, mapCaptureLookupError, plainError, ApiError, ApiErrorView, CaptureError,
    CaptureErrorKind,
};
use crate::controlApi::transactions::TransactionProtocol;
use crate::encoding::{base64Bytes, base64Text, decodeBase64, encodeBase64};
use crate::localization::ErrorCode;
use crate::text::{
    asciiLowered, byteLen, byteLength, copyText, equalText, optionalView,
    startsWith, startsWithText, trimText, trimmed,
};
use vstd::prelude::*;
use vstd::utf8::encode_utf8;

verus! {

pub const maximumReplayHeaders: usize = 256;

pub const maximumReplayMethodCharacters: usize = 32;

pub const maximumReplayUrlCharacters: usize = 8192;

pub const maximumReplayBodyBytes: usize = 8388608;

/// The base64 form of the largest body.
pub const maximumReplayBodyCharacters: usize = 11184812;

pub const maximumAdvancedRepeatConcurrency: usize = 256;

pub const maximumAdvancedRepeatIterations: usize = 10000;

pub const maximumAdvancedRepeatIntervalMilliseconds: u64 = 60000;

pub const maximumAdvancedRepeatNameCharacters: usize = 128;

pub const maximumRetainedLoadTests: usize = 64;

/// An editable request.
#[derive(Debug)]
pub struct ComposeRequest {
    pub method: String,
    pub url: String,
    pub headers: Vec<HeaderField>,
    pub bodyBase64: String,
    pub viaProxy: bool,
}

/// The mathematical value of a request.
pub struct ComposeView {
    pub method: Seq<char>,
    pub url: Seq<char>,
    pub headers: Seq<(Seq<char>, Seq<char>)>,
    pub bodyBase64: Seq<char>,
    pub viaProxy: bool,
}

impl View for ComposeRequest {
    type V = ComposeView;

    open spec fn view(&self) -> ComposeView {
        ComposeView {
            method: self.method@,
            url: self.url@,
            headers: fieldTexts(self.headers@),
            bodyBase64: self.bodyBase64@,
            viaProxy: self.viaProxy,
        }
    }
}

impl ComposeRequest {
    /// An independent copy.
    pub fn copied(&self) -> (result: ComposeRequest)
        ensures
            result@ == self@,
    {
        ComposeRequest {
            method: copyText(self.method.as_str()),
            url: copyText(self.url.as_str()),
            headers: copyFields(&self.headers),
            bodyBase64: copyText(self.bodyBase64.as_str()),
            viaProxy: self.viaProxy,
        }
    }
}

/// What a request goes through unless it says otherwise.
pub fn defaultViaProxy() -> (result: bool)
    ensures
        result,
{
    true
}

/// The parts of a recorded request that a client replaces.
#[derive(Debug)]
pub struct ComposeRequestOverrides {
    pub method: Option<String>,
    pub url: Option<String>,
    pub headers: Option<Vec<HeaderField>>,
    pub bodyBase64: Option<String>,
    pub viaProxy: Option<bool>,
}

/// A wish to send a recorded request again.
#[derive(Debug)]
pub struct RepeatRequest {
    pub transactionId: String,
    pub overrides: Option<ComposeRequestOverrides>,
}

/// What a composed request came to.
#[derive(Debug)]
pub struct ComposeResult {
    pub transactionId: String,
    pub revision: u64,
}

/// The recorded request with the replaced parts in place.
pub open spec fn mergedRequest(
    method: Seq<char>,
    url: Seq<char>,
    headers: Seq<(Seq<char>, Seq<char>)>,
    body: Seq<char>,
    overrides: Option<ComposeRequestOverrides>,
) -> ComposeView {
    match overrides {
        None => ComposeView { method, url, headers, bodyBase64: body, viaProxy: true },
        Some(overrides) => ComposeView {
            method: match overrides.method {
                Some(text) => text@,
                None => method,
            },
            url: match overrides.url {
                Some(text) => text@,
                None => url,
            },
            headers: match overrides.headers {
                Some(fields) => fieldTexts(fields@),
                None => headers,
            },
            bodyBase64: match overrides.bodyBase64 {
                Some(text) => text@,
                None => body,
            },
            viaProxy: match overrides.viaProxy {
                Some(flag) => flag,
                None => true,
            },
        },
    }
}

/// Puts the replaced parts of a recorded request in place.
pub fn mergeRepeatRequest(
    transactionMethod: String,
    transactionUrl: String,
    transactionHeaders: Vec<HeaderField>,
    transactionBodyBase64: String,
    overrides: Option<ComposeRequestOverrides>,
) -> (result: ComposeRequest)
    ensures
        result@ == mergedRequest(
            transactionMethod@,
            transactionUrl@,
            fieldTexts(transactionHeaders@),
            transactionBodyBase64@,
            overrides,
        ),
{
    match overrides {
        None => ComposeRequest {
            method: transactionMethod,
            url: transactionUrl,
            headers: transactionHeaders,
            bodyBase64: transactionBodyBase64,
            viaProxy: true,
        },
        Some(overrides) => ComposeRequest {
            method: match overrides.method {
                Some(text) => text,
                None => transactionMethod,
            },
            url: match overrides.url {
                Some(text) => text,
                None => transactionUrl,
            },
            headers: match overrides.headers {
                Some(fields) => fields,
                None => transactionHeaders,
            },
            bodyBase64: match overrides.bodyBase64 {
                Some(text) => text,
                None => transactionBodyBase64,
            },
            viaProxy: match overrides.viaProxy {
                Some(flag) => flag,
                None => true,
            },
        },
    }
}

/// Nothing of a recorded request survives a replacement of all its parts, and all of it survives
/// where nothing is replaced.
pub proof fn lawOverridesDecide(
    method: Seq<char>,
    url: Seq<char>,
    headers: Seq<(Seq<char>, Seq<char>)>,
    body: Seq<char>,
    overrides: ComposeRequestOverrides,
)
    ensures
        mergedRequest(method, url, headers, body, None).method == method,
        mergedRequest(method, url, headers, body, None).headers == headers,
        overrides.method is Some && overrides.url is Some && overrides.headers is Some
            && overrides.bodyBase64 is Some ==> mergedRequest(
            method,
            url,
            headers,
            body,
            Some(overrides),
        ) == mergedRequest(
            Seq::empty(),
            Seq::empty(),
            Seq::empty(),
            Seq::empty(),
            Some(overrides),
        ),
{
}

/// A repeat without wishes of its own is the recorded request, part by part, and goes through the proxy.
pub proof fn lawRepeatIsTheRecordedRequest(
    method: Seq<char>,
    url: Seq<char>,
    headers: Seq<(Seq<char>, Seq<char>)>,
    body: Seq<char>,
)
    ensures
        mergedRequest(method, url, headers, body, None) == (ComposeView {
            method,
            url,
            headers,
            bodyBase64: body,
            viaProxy: true,
        }),
{
}

/// Each part is decided by itself: it is the client's where the client names it and the recorded one
/// where not, whatever is said of the other parts. A request goes through the proxy unless the client
/// asks for the direct way.
pub proof fn lawEachPartIsDecidedByItself(
    method: Seq<char>,
    url: Seq<char>,
    headers: Seq<(Seq<char>, Seq<char>)>,
    body: Seq<char>,
    overrides: ComposeRequestOverrides,
)
    ensures
        ({
            let merged = mergedRequest(method, url, headers, body, Some(overrides));
            &&& overrides.method is None ==> merged.method == method
            &&& overrides.method matches Some(text) ==> merged.method == text@
            &&& overrides.url is None ==> merged.url == url
            &&& overrides.url matches Some(text) ==> merged.url == text@
            &&& overrides.headers is None ==> merged.headers == headers
            &&& overrides.headers matches Some(fields) ==> merged.headers == fieldTexts(fields@)
            &&& overrides.bodyBase64 is None ==> merged.bodyBase64 == body
            &&& overrides.bodyBase64 matches Some(text) ==> merged.bodyBase64 == text@
            &&& merged.viaProxy <==> overrides.viaProxy != Some(false)
        }),
{
}

// ---------------------------------------------------------------------------
// Locations
// ---------------------------------------------------------------------------

/// The parts of an address.
#[derive(Debug)]
pub struct UriParts {
    pub scheme: Option<String>,
    pub host: Option<String>,
    pub port: Option<u16>,
    pub path: String,
    pub query: Option<String>,
    pub display: String,
}

/// The scheme, host, port, path, query and canonical text of an address.
pub type UriView = (
    Option<Seq<char>>,
    Option<Seq<char>>,
    Option<u16>,
    Seq<char>,
    Option<Seq<char>>,
    Seq<char>,
);

impl View for UriParts {
    type V = UriView;

    open spec fn view(&self) -> UriView {
        (
            optionalView(self.scheme),
            optionalView(self.host),
            self.port,
            self.path@,
            optionalView(self.query),
            self.display@,
        )
    }
}

/// The parts of the address that a text writes, if it is one.
pub uninterp spec fn uriParts(text: Seq<char>) -> Option<
    (
        Option<Seq<char>>,
        Option<Seq<char>>,
        Option<u16>,
        Seq<char>,
        Option<Seq<char>>,
        Seq<char>,
    ),
>;

/// The value of optional parts.
pub open spec fn optionalUri(uri: Option<UriParts>) -> Option<UriView> {
    match uri {
        Some(uri) => Some(uri@),
        None => None,
    }
}

/// Reads an address.
///
/// Trusted: `http::Uri::from_str` and the accessors of `http::Uri`. The parts depend on the text
/// alone.
#[verifier::external_body]
pub(crate) fn readUri(text: &str) -> (result: Option<UriParts>)
    ensures
        optionalUri(result) == uriParts(text@),
{
    let uri = text.parse::<http::Uri>().ok()?;
    Some(
        UriParts {
            scheme: uri.scheme_str().map(|text| text.to_owned()),
            host: uri.authority().map(|authority| authority.host().to_owned()),
            port: uri.authority().and_then(|authority| authority.port_u16()),
            path: uri.path().to_owned(),
            query: uri.query().map(|text| text.to_owned()),
            display: uri.to_string(),
        },
    )
}

/// Where a request goes.
#[derive(Debug)]
pub struct ReplayLocation {
    pub protocol: String,
    pub host: String,
    pub port: u16,
    pub path: String,
    pub query: String,
    pub display: String,
}

/// The mathematical value of a location.
pub struct LocationView {
    pub protocol: Seq<char>,
    pub host: Seq<char>,
    pub port: u16,
    pub path: Seq<char>,
    pub query: Seq<char>,
    pub display: Seq<char>,
}

impl View for ReplayLocation {
    type V = LocationView;

    open spec fn view(&self) -> LocationView {
        LocationView {
            protocol: self.protocol@,
            host: self.host@,
            port: self.port,
            path: self.path@,
            query: self.query@,
            display: self.display@,
        }
    }
}

/// The port of a scheme.
pub open spec fn defaultPort(scheme: Seq<char>) -> u16 {
    if scheme == "https"@ {
        443
    } else {
        80
    }
}

/// The location of an absolute HTTP address with a host and a path.
pub open spec fn locationOf(uri: UriView) -> Option<LocationView> {
    match (uri.0, uri.1) {
        (Some(scheme), Some(host)) => if (scheme == "http"@ || scheme == "https"@) && host.len() > 0
            && startsWith(uri.3, "/"@) {
            Some(
                LocationView {
                    protocol: scheme,
                    host,
                    port: match uri.2 {
                        Some(port) => port,
                        None => defaultPort(scheme),
                    },
                    path: uri.3,
                    query: match uri.4 {
                        Some(query) => query,
                        None => Seq::empty(),
                    },
                    display: uri.5,
                },
            )
        } else {
            None
        },
        _ => None,
    }
}

/// The error of a request that cannot be sent.
pub open spec fn invalidRepeat() -> ApiErrorView {
    plainError(400, ErrorCode::InvalidRepeatRequest)
}

/// The location that an address writes.
pub fn composeLocation(uri: &UriParts) -> (result: Result<ReplayLocation, ApiError>)
    ensures
        match result {
            Ok(location) => locationOf(uri@) == Some(location@),
            Err(error) => locationOf(uri@) is None && error@ == invalidRepeat(),
        },
{
    match (&uri.scheme, &uri.host) {
        (Some(scheme), Some(host)) => {
            let secure = equalText(scheme.as_str(), "https");
            if !(secure || equalText(scheme.as_str(), "http")) || host.as_str().is_empty()
                || !startsWithText(uri.path.as_str(), "/") {
                return Err(ApiError::badRequest(ErrorCode::InvalidRepeatRequest));
            }
            let port: u16 = match uri.port {
                Some(port) => port,
                None => if secure {
                    443
                } else {
                    80
                },
            };
            let query = match &uri.query {
                Some(query) => copyText(query.as_str()),
                None => String::new(),
            };
            Ok(
                ReplayLocation {
                    protocol: copyText(scheme.as_str()),
                    host: copyText(host.as_str()),
                    port,
                    path: copyText(uri.path.as_str()),
                    query,
                    display: copyText(uri.display.as_str()),
                },
            )
        },
        _ => Err(ApiError::badRequest(ErrorCode::InvalidRepeatRequest)),
    }
}

// ---------------------------------------------------------------------------
// Headers and bodies
// ---------------------------------------------------------------------------

/// Whether every field can stand in a request.
pub open spec fn areUsableFields(fields: Seq<(Seq<char>, Seq<char>)>) -> bool {
    forall|i: int|
        0 <= i < fields.len() ==> isHeaderName((#[trigger] fields[i]).0) && isHeaderValue(
            fields[i].1,
        )
}

/// The fields as a collection holds them.
pub open spec fn appendedFields(fields: Seq<(Seq<char>, Seq<char>)>) -> Seq<FieldView>
    decreases fields.len(),
{
    if fields.len() == 0 {
        Seq::empty()
    } else {
        fieldAppended(
            appendedFields(fields.drop_last()),
            asciiLowered(fields.last().0),
            encode_utf8(fields.last().1),
        )
    }
}

/// The fields of a request whose host is fixed by its location.
pub open spec fn composedFields(
    fields: Seq<(Seq<char>, Seq<char>)>,
    host: Seq<char>,
) -> Seq<FieldView> {
    fieldReplaced(appendedFields(fields), asciiLowered("host"@), encode_utf8(host))
}

/// Whether the fields and the host of a request can be sent.
pub open spec fn areUsableHeaders(
    fields: Seq<(Seq<char>, Seq<char>)>,
    host: Option<Seq<char>>,
) -> bool {
    &&& fields.len() <= maximumReplayHeaders
    &&& areUsableFields(fields)
    &&& host matches Some(text) && isHeaderValue(text)
}

/// Builds the headers of a request. `hostHeader` is the canonical host of its location, if there is
/// one; it takes the place of any host that the fields name.
pub fn composeHeaders(fields: &Vec<HeaderField>, hostHeader: &Option<String>) -> (result: Result<
    http::HeaderMap<http::HeaderValue>,
    ApiError,
>)
    ensures
        match result {
            Ok(headers) => areUsableHeaders(fieldTexts(fields@), optionalView(*hostHeader))
                && headerFields(headers) == composedFields(
                fieldTexts(fields@),
                optionalView(*hostHeader)->0,
            ),
            Err(error) => !areUsableHeaders(fieldTexts(fields@), optionalView(*hostHeader))
                && error@ == invalidRepeat(),
        },
{
    let ghost all = fieldTexts(fields@);
    if fields.len() > maximumReplayHeaders {
        return Err(ApiError::badRequest(ErrorCode::InvalidRepeatRequest));
    }
    let mut headers = emptyHeaders();
    let mut i: usize = 0;
    while i < fields.len()
        invariant
            i <= fields.len() <= maximumReplayHeaders,
            all == fieldTexts(fields@),
            headerFields(headers) == appendedFields(all.take(i as int)),
            headerFields(headers).len() == i,
            forall|k: int|
                0 <= k < i ==> isHeaderName((#[trigger] all[k]).0) && isHeaderValue(all[k].1),
        decreases fields.len() - i,
    {
        assert(all[i as int] == (fields@[i as int].name@, fields@[i as int].value@));
        if !isValidHeaderName(fields[i].name.as_str()) || !isValidHeaderValue(
            fields[i].value.as_str(),
        ) {
            return Err(ApiError::badRequest(ErrorCode::InvalidRepeatRequest));
        }
        proof {
            lawAppendAddsOneField(
                headerFields(headers),
                asciiLowered(all[i as int].0),
                encode_utf8(all[i as int].1),
            );
            assert(all.take(i + 1).drop_last() == all.take(i as int));
        }
        appendHeader(&mut headers, fields[i].name.as_str(), fields[i].value.as_str());
        i += 1;
    }
    assert(all.take(i as int) == all);
    match hostHeader {
        Some(host) => {
            if !isValidHeaderValue(host.as_str()) {
                return Err(ApiError::badRequest(ErrorCode::InvalidRepeatRequest));
            }
            proof {
                reveal_strlit("host");
            }
            replaceHeader(&mut headers, "host", host.as_str());
            Ok(headers)
        },
        None => Err(ApiError::badRequest(ErrorCode::InvalidRepeatRequest)),
    }
}

/// A composed request names exactly one host, that of its location.
pub proof fn lawHostFollowsLocation(fields: Seq<(Seq<char>, Seq<char>)>, host: Seq<char>)
    ensures
        crate::controlApi::headerFields::countField(
            composedFields(fields, host),
            asciiLowered("host"@),
        ) == 1,
        crate::controlApi::headerFields::firstField(
            composedFields(fields, host),
            asciiLowered("host"@),
        ) == Some(encode_utf8(host)),
{
    lawReplacedFieldIsSingle(appendedFields(fields), asciiLowered("host"@), encode_utf8(host));
}

/// The body of a request, where it can be sent.
pub open spec fn composedBody(encodedLength: nat, decoded: Option<Seq<u8>>) -> Option<Seq<u8>> {
    match decoded {
        Some(bytes) => if encodedLength <= maximumReplayBodyCharacters && bytes.len()
            <= maximumReplayBodyBytes {
            Some(bytes)
        } else {
            None
        },
        None => None,
    }
}

/// Reads the body of a request.
pub fn composeBody(encoded: &str) -> (result: Result<Vec<u8>, ApiError>)
    ensures
        match result {
            Ok(bytes) => composedBody(byteLength(encoded@), base64Bytes(encoded@)) == Some(bytes@),
            Err(error) => composedBody(byteLength(encoded@), base64Bytes(encoded@)) is None
                && error@ == invalidRepeat(),
        },
{
    if byteLen(encoded) > maximumReplayBodyCharacters {
        return Err(ApiError::badRequest(ErrorCode::InvalidRepeatRequest));
    }
    checkBody(decodeBase64(encoded))
}

/// Accepts a decoded body of at most the largest size.
pub fn checkBody(decoded: Option<Vec<u8>>) -> (result: Result<Vec<u8>, ApiError>)
    ensures
        match result {
            Ok(bytes) => decoded matches Some(given) && given@.len() <= maximumReplayBodyBytes
                && bytes@ == given@,
            Err(error) => (decoded matches Some(given) ==> given@.len() > maximumReplayBodyBytes)
                && error@ == invalidRepeat(),
        },
{
    match decoded {
        Some(bytes) => if bytes.len() > maximumReplayBodyBytes {
            Err(ApiError::badRequest(ErrorCode::InvalidRepeatRequest))
        } else {
            Ok(bytes)
        },
        None => Err(ApiError::badRequest(ErrorCode::InvalidRepeatRequest)),
    }
}

// ---------------------------------------------------------------------------
// Prepared requests
// ---------------------------------------------------------------------------

/// A request that can be sent.
pub struct PreparedReplayRequest {
    pub method: String,
    pub headers: http::HeaderMap<http::HeaderValue>,
    pub body: Vec<u8>,
    pub originalLocation: ReplayLocation,
    pub viaProxy: bool,
}

/// Whether a method and an address can be sent, and where to.
pub open spec fn replayTarget(
    method: Seq<char>,
    url: Seq<char>,
    uri: Option<UriView>,
) -> Option<LocationView> {
    if 0 < byteLength(method) <= maximumReplayMethodCharacters && isToken(method)
        && byteLength(url) <= maximumReplayUrlCharacters {
        match uri {
            Some(uri) => locationOf(uri),
            None => None,
        }
    } else {
        None
    }
}

/// Where a request goes, once its method and address were checked.
pub fn locateReplayRequest(request: &ComposeRequest) -> (result: Result<ReplayLocation, ApiError>)
    ensures
        match result {
            Ok(location) => replayTarget(request@.method, request@.url, uriParts(request@.url))
                == Some(location@),
            Err(error) => replayTarget(request@.method, request@.url, uriParts(request@.url))
                is None && error@ == invalidRepeat(),
        },
{
    let length: usize = byteLen(request.method.as_str());
    if length == 0 || length > maximumReplayMethodCharacters || !isHttpMethod(
        request.method.as_str(),
    ) || byteLen(request.url.as_str()) > maximumReplayUrlCharacters {
        return Err(ApiError::badRequest(ErrorCode::InvalidRepeatRequest));
    }
    match readUri(request.url.as_str()) {
        Some(uri) => composeLocation(&uri),
        None => Err(ApiError::badRequest(ErrorCode::InvalidRepeatRequest)),
    }
}

/// Whether a request can be sent to where it goes, with the canonical host of that location.
pub open spec fn isSendable(request: ComposeView, host: Option<Seq<char>>) -> bool {
    &&& replayTarget(request.method, request.url, uriParts(request.url)) is Some
    &&& areUsableHeaders(request.headers, host)
    &&& composedBody(byteLength(request.bodyBase64), base64Bytes(request.bodyBase64)) is Some
}

/// Prepares a request. `hostHeader` is the canonical host of the location that
/// `locateReplayRequest` gives.
pub fn prepareReplayRequest(request: &ComposeRequest, hostHeader: &Option<String>) -> (result:
    Result<PreparedReplayRequest, ApiError>)
    ensures
        match result {
            Ok(prepared) => {
                &&& isSendable(request@, optionalView(*hostHeader))
                &&& prepared.method@ == request@.method
                &&& replayTarget(request@.method, request@.url, uriParts(request@.url)) == Some(
                    prepared.originalLocation@,
                )
                &&& headerFields(prepared.headers) == composedFields(
                    request@.headers,
                    optionalView(*hostHeader)->0,
                )
                &&& composedBody(
                    byteLength(request@.bodyBase64),
                    base64Bytes(request@.bodyBase64),
                ) == Some(prepared.body@)
                &&& prepared.viaProxy == request@.viaProxy
            },
            Err(error) => !isSendable(request@, optionalView(*hostHeader)) && error@
                == invalidRepeat(),
        },
{
    let originalLocation = match locateReplayRequest(request) {
        Ok(location) => location,
        Err(error) => return Err(error),
    };
    let headers = match composeHeaders(&request.headers, hostHeader) {
        Ok(headers) => headers,
        Err(error) => return Err(error),
    };
    let body = match composeBody(request.bodyBase64.as_str()) {
        Ok(body) => body,
        Err(error) => return Err(error),
    };
    Ok(
        PreparedReplayRequest {
            method: copyText(request.method.as_str()),
            headers,
            body,
            originalLocation,
            viaProxy: request.viaProxy,
        },
    )
}

// ---------------------------------------------------------------------------
// Load test plans and recorded transactions
// ---------------------------------------------------------------------------

/// The plan of a load test.
#[derive(Debug)]
pub struct AdvancedRepeatPlan {
    pub name: String,
    pub base: ComposeRequest,
    pub concurrency: usize,
    pub totalIterations: usize,
    pub intervalMilliseconds: u64,
    pub recordEach: bool,
    pub stopOnError: bool,
}

/// The mathematical value of a plan.
pub struct PlanView {
    pub name: Seq<char>,
    pub base: ComposeView,
    pub concurrency: usize,
    pub totalIterations: usize,
    pub intervalMilliseconds: u64,
    pub recordEach: bool,
    pub stopOnError: bool,
}

impl View for AdvancedRepeatPlan {
    type V = PlanView;

    open spec fn view(&self) -> PlanView {
        PlanView {
            name: self.name@,
            base: self.base@,
            concurrency: self.concurrency,
            totalIterations: self.totalIterations,
            intervalMilliseconds: self.intervalMilliseconds,
            recordEach: self.recordEach,
            stopOnError: self.stopOnError,
        }
    }
}

impl AdvancedRepeatPlan {
    /// An independent copy.
    pub fn copied(&self) -> (result: AdvancedRepeatPlan)
        ensures
            result@ == self@,
    {
        AdvancedRepeatPlan {
            name: copyText(self.name.as_str()),
            base: self.base.copied(),
            concurrency: self.concurrency,
            totalIterations: self.totalIterations,
            intervalMilliseconds: self.intervalMilliseconds,
            recordEach: self.recordEach,
            stopOnError: self.stopOnError,
        }
    }
}

/// A wish to start a load test.
#[derive(Debug)]
pub struct AdvancedRepeatStartRequest {
    pub plan: AdvancedRepeatPlan,
    pub confirmed: bool,
}

/// Whether the numbers and the name of a plan keep its bounds.
pub open spec fn isBoundedPlan(plan: PlanView) -> bool {
    &&& trimmed(plan.name).len() > 0
    &&& byteLength(plan.name) <= maximumAdvancedRepeatNameCharacters
    &&& 1 <= plan.concurrency <= maximumAdvancedRepeatConcurrency
    &&& 1 <= plan.totalIterations <= maximumAdvancedRepeatIterations
    &&& plan.intervalMilliseconds <= maximumAdvancedRepeatIntervalMilliseconds
}

/// Why a plan is refused, if so: first for want of a confirmation, then for its bounds, then for
/// its request.
pub open spec fn planProblem(
    plan: PlanView,
    confirmed: bool,
    host: Option<Seq<char>>,
) -> Option<ApiErrorView> {
    if !confirmed {
        Some(plainError(409, ErrorCode::AdvancedRepeatConfirmationRequired))
    } else if !isBoundedPlan(plan) {
        Some(plainError(400, ErrorCode::InvalidAdvancedRepeatPlan))
    } else if !isSendable(plan.base, host) {
        Some(invalidRepeat())
    } else {
        None
    }
}

/// Checks a plan. `hostHeader` is the canonical host of its request's location.
pub fn validateAdvancedPlan(
    plan: &AdvancedRepeatPlan,
    confirmed: bool,
    hostHeader: &Option<String>,
) -> (result: Result<(), ApiError>)
    ensures
        match result {
            Ok(_) => planProblem(plan@, confirmed, optionalView(*hostHeader)) is None,
            Err(error) => planProblem(plan@, confirmed, optionalView(*hostHeader)) == Some(error@),
        },
{
    if !confirmed {
        return Err(ApiError::conflict(ErrorCode::AdvancedRepeatConfirmationRequired));
    }
    let name = trimText(plan.name.as_str());
    if name.as_str().is_empty() || byteLen(plan.name.as_str())
        > maximumAdvancedRepeatNameCharacters || plan.concurrency < 1 || plan.concurrency
        > maximumAdvancedRepeatConcurrency || plan.totalIterations < 1 || plan.totalIterations
        > maximumAdvancedRepeatIterations || plan.intervalMilliseconds
        > maximumAdvancedRepeatIntervalMilliseconds {
        return Err(ApiError::badRequest(ErrorCode::InvalidAdvancedRepeatPlan));
    }
    match prepareReplayRequest(&plan.base, hostHeader) {
        Ok(_) => Ok(()),
        Err(error) => Err(error),
    }
}

/// Checks that a wish names the transaction of its path.
pub fn validateRepeatTarget(request: &RepeatRequest, transactionId: &str) -> (result: Result<
    (),
    ApiError,
>)
    ensures
        match result {
            Ok(_) => request.transactionId@ == transactionId@,
            Err(error) => request.transactionId@ != transactionId@ && error@ == invalidRepeat(),
        },
{
    if equalText(request.transactionId.as_str(), transactionId) {
        Ok(())
    } else {
        Err(ApiError::badRequest(ErrorCode::InvalidRepeatRequest))
    }
}

/// Whether a recorded transaction can be sent again.
pub open spec fn isRepeatable(protocol: TransactionProtocol) -> bool {
    protocol == TransactionProtocol::Http || protocol == TransactionProtocol::Https
}

/// Checks that a recorded transaction can be sent again.
pub fn validateRepeatProtocol(protocol: TransactionProtocol) -> (result: Result<(), ApiError>)
    ensures
        match result {
            Ok(_) => isRepeatable(protocol),
            Err(error) => !isRepeatable(protocol) && error@ == plainError(
                400,
                ErrorCode::UnsupportedRepeatTransaction,
            ),
        },
{
    match protocol {
        TransactionProtocol::Http | TransactionProtocol::Https => Ok(()),
        _ => Err(ApiError::badRequest(ErrorCode::UnsupportedRepeatTransaction)),
    }
}

/// The request that sends a recorded transaction again.
pub fn repeatTransaction(
    method: String,
    url: String,
    headers: Vec<HeaderField>,
    body: &Vec<u8>,
    overrides: Option<ComposeRequestOverrides>,
) -> (result: ComposeRequest)
    ensures
        result@ == mergedRequest(
            method@,
            url@,
            fieldTexts(headers@),
            base64Text(body@),
            overrides,
        ),
        overrides is None || overrides->0.bodyBase64 is None ==> base64Bytes(result@.bodyBase64)
            == Some(body@),
{
    let encoded = encodeBase64(body.as_slice());
    mergeRepeatRequest(method, url, headers, encoded, overrides)
}

/// Maps the failure to read a recorded request's body: a body that was not kept is a conflict,
/// anything else a failed lookup.
pub fn mapRepeatBodyError(error: CaptureError) -> (result: ApiError)
    ensures
        result@ == if error.kind == CaptureErrorKind::BodyNotFound {
            plainError(409, ErrorCode::RepeatBodyUnavailable)
        } else {
            captureLookupError(error.kind, error.detail@)
        },
{
    if error.kind == CaptureErrorKind::BodyNotFound {
        ApiError::conflict(ErrorCode::RepeatBodyUnavailable)
    } else {
        mapCaptureLookupError(error)
    }
}

/// A request goes where its address says: to the host, the path and the query that it writes, at its port or
/// that of its scheme. Only addresses of the web with a host and a rooted path can be sent to.
pub proof fn lawRequestGoesWhereItsAddressSays(
    scheme: Option<Seq<char>>,
    host: Option<Seq<char>>,
    port: Option<u16>,
    path: Seq<char>,
    query: Option<Seq<char>>,
    display: Seq<char>,
)
    ensures
        ({
            let location = locationOf((scheme, host, port, path, query, display));
            &&& location is Some <==> (scheme == Some("http"@) || scheme == Some("https"@)) && host
                is Some && host->0.len() > 0 && path.len() > 0 && path[0] == '/'
            &&& location matches Some(found) ==> {
                &&& Some(found.protocol) == scheme
                &&& Some(found.host) == host
                &&& found.path == path
                &&& found.display == display
                &&& query matches Some(text) ==> found.query == text
                &&& query is None ==> found.query.len() == 0
                &&& port matches Some(number) ==> found.port == number
                &&& port is None && scheme == Some("http"@) ==> found.port == 80
                &&& port is None && scheme == Some("https"@) ==> found.port == 443
            }
        }),
{
    reveal_strlit("/");
    reveal_strlit("http");
    reveal_strlit("https");
    assert("http"@.len() == 4 && "https"@.len() == 5);
    if path.len() > 0 {
        assert(path.take(1)[0] == path[0]);
        if path[0] == '/' {
            assert(path.take(1) =~= "/"@);
        }
    }
}

/// Every field that a client gives is sent, in order and as it is written but for the case of its name;
/// only the host is that of the location.
pub proof fn lawGivenFieldsAreSent(
    fields: Seq<(Seq<char>, Seq<char>)>,
    host: Seq<char>,
    name: Seq<char>,
    value: Seq<char>,
    other: Seq<char>,
)
    requires
        other != asciiLowered("host"@),
    ensures
        valuesNamed(composedFields(Seq::empty(), host), other).len() == 0,
        valuesNamed(composedFields(fields.push((name, value)), host), other) == if other
            == asciiLowered(name) {
            valuesNamed(composedFields(fields, host), other).push(encode_utf8(value))
        } else {
            valuesNamed(composedFields(fields, host), other)
        },
        valuesNamed(composedFields(fields, host), asciiLowered("host"@)) == seq![encode_utf8(host)],
{
    let key = asciiLowered("host"@);
    let more = fields.push((name, value));
    assert(more.drop_last() == fields);
    lawReplacingKeepsOtherValues(appendedFields(Seq::empty()), key, encode_utf8(host), other);
    lawReplacingKeepsOtherValues(appendedFields(fields), key, encode_utf8(host), other);
    lawReplacingKeepsOtherValues(appendedFields(more), key, encode_utf8(host), other);
    lawAddedValueComesLast(appendedFields(fields), asciiLowered(name), encode_utf8(value), other);
    lawHostFollowsLocation(fields, host);
    lawFirstValueIsTheFirst(composedFields(fields, host), key);
    assert(valuesNamed(composedFields(fields, host), key) =~= seq![encode_utf8(host)]);
}

/// A body is sent as it decodes, up to the largest size; a longer one and one that does not decode are not.
pub proof fn lawBodyIsSentAsDecoded(encodedLength: nat, decoded: Option<Seq<u8>>)
    ensures
        composedBody(encodedLength, decoded) is Some ==> composedBody(encodedLength, decoded)
            == decoded,
        composedBody(encodedLength, decoded) is Some <==> decoded is Some && decoded->0.len()
            <= 8 * 1024 * 1024 && encodedLength <= 4 * ((8 * 1024 * 1024 + 2) / 3),
{
}

/// A load test is begun exactly where it was confirmed, keeps its bounds and could be sent once; what is
/// wrong with it is told in this order.
pub proof fn lawConfirmedPlanIsRun(plan: PlanView, confirmed: bool, host: Option<Seq<char>>)
    ensures
        planProblem(plan, confirmed, host) is None <==> confirmed && isSendable(plan.base, host)
            && trimmed(plan.name).len() > 0 && byteLength(plan.name) <= 128 && 1
            <= plan.concurrency <= 256 && 1 <= plan.totalIterations <= 10_000
            && plan.intervalMilliseconds <= 60_000,
        !confirmed ==> planProblem(plan, confirmed, host) == Some(
            plainError(409, ErrorCode::AdvancedRepeatConfirmationRequired),
        ),
        confirmed && (trimmed(plan.name).len() == 0 || plan.concurrency == 0
            || plan.totalIterations == 0 || plan.totalIterations > 10_000 || plan.concurrency > 256)
            ==> planProblem(plan, confirmed, host) == Some(
            plainError(400, ErrorCode::InvalidAdvancedRepeatPlan),
        ),
{
}

/// Only recorded requests of the web can be sent again.
pub proof fn lawOnlyWebRequestsRepeat(protocol: TransactionProtocol)
    ensures
        isRepeatable(protocol) <==> protocol is Http || protocol is Https,
{
}

/// A request that cannot be sent again is the client's mistake.
pub proof fn lawWrongRepeatIsRefused()
    ensures
        invalidRepeat().status == 400,
        invalidRepeat().code == ErrorCode::InvalidRepeatRequest,
        invalidRepeat().params.len() == 0,
{
}

} // verus!
