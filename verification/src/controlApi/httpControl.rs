//! The HTTP contract of the control plane: structured errors, origins and event streams.

use crate::controlApi::headerFields::{headerFields, headerTexts, readings, textsNamed};
use crate::localization::{
    errorKey, errorTemplate, interpolated, localizeError, paramInserted, ErrorCode, Locale,
    LocaleCatalog, MessageParams,
};
use crate::text::{asciiLowered, copyText, equalText, optionalView};
use vstd::prelude::*;

verus! {

/// An error of the control API: its HTTP status, its machine code and the named values of its
/// message.
#[derive(Debug)]
pub struct ApiError {
    pub status: u16,
    pub code: ErrorCode,
    pub params: MessageParams,
}

/// The mathematical value of an error.
pub struct ApiErrorView {
    pub status: u16,
    pub code: ErrorCode,
    pub params: Seq<(Seq<char>, Seq<char>)>,
}

impl View for ApiError {
    type V = ApiErrorView;

    open spec fn view(&self) -> ApiErrorView {
        ApiErrorView { status: self.status, code: self.code, params: self.params@ }
    }
}

/// An error without named values.
pub open spec fn plainError(status: u16, code: ErrorCode) -> ApiErrorView {
    ApiErrorView { status, code, params: Seq::empty() }
}

/// An error with one more named value.
pub open spec fn errorWith(error: ApiErrorView, name: Seq<char>, value: Seq<char>) -> ApiErrorView {
    ApiErrorView { params: paramInserted(error.params, name, value), ..error }
}

/// An error that carries a diagnostic text.
pub open spec fn detailedError(status: u16, code: ErrorCode, detail: Seq<char>) -> ApiErrorView {
    errorWith(plainError(status, code), "detail"@, detail)
}

impl ApiError {
    /// An error of a given status, without named values.
    pub fn ofStatus(status: u16, code: ErrorCode) -> (result: ApiError)
        ensures
            result@ == plainError(status, code),
    {
        ApiError { status, code, params: MessageParams::new() }
    }

    /// A request that cannot be accepted.
    pub fn badRequest(code: ErrorCode) -> (result: ApiError)
        ensures
            result@ == plainError(400, code),
    {
        ApiError::ofStatus(400, code)
    }

    /// A request without valid credentials.
    pub fn unauthorized(code: ErrorCode) -> (result: ApiError)
        ensures
            result@ == plainError(401, code),
    {
        ApiError::ofStatus(401, code)
    }

    /// A request from an origin that is not allowed.
    pub fn forbidden(code: ErrorCode) -> (result: ApiError)
        ensures
            result@ == plainError(403, code),
    {
        ApiError::ofStatus(403, code)
    }

    /// A resource that does not exist, or no longer does.
    pub fn notFound(code: ErrorCode) -> (result: ApiError)
        ensures
            result@ == plainError(404, code),
    {
        ApiError::ofStatus(404, code)
    }

    /// A request that the current lifecycle state rules out.
    pub fn conflict(code: ErrorCode) -> (result: ApiError)
        ensures
            result@ == plainError(409, code),
    {
        ApiError::ofStatus(409, code)
    }

    /// A failure of the backend itself.
    pub fn internal(code: ErrorCode) -> (result: ApiError)
        ensures
            result@ == plainError(500, code),
    {
        ApiError::ofStatus(500, code)
    }

    /// A dependency that cannot serve at the moment.
    pub fn unavailable(code: ErrorCode) -> (result: ApiError)
        ensures
            result@ == plainError(503, code),
    {
        ApiError::ofStatus(503, code)
    }

    /// Adds a named value; status and code stay.
    pub fn withParam(self, name: &str, value: String) -> (result: ApiError)
        ensures
            result@ == errorWith(self@, name@, value@),
    {
        let mut params = self.params;
        params.insert(name, value);
        ApiError { status: self.status, code: self.code, params }
    }

    /// Adds a diagnostic text.
    pub fn withDetail(self, detail: String) -> (result: ApiError)
        ensures
            result@ == errorWith(self@, "detail"@, detail@),
    {
        self.withParam("detail", detail)
    }

    /// Binds the language of the request; status, code and named values stay.
    pub fn withLocale(self, locale: Locale) -> (result: LocalizedApiError)
        ensures
            result.error@ == self@,
            result.locale == locale,
    {
        LocalizedApiError { error: self, locale }
    }

    /// The text for the process log.
    pub fn message(&self, catalogs: &Vec<LocaleCatalog>) -> (result: String)
        requires
            errorTemplate(catalogs@, self.code, Locale::ZhHans) is Some,
        ensures
            result@ == interpolated(
                errorTemplate(catalogs@, self.code, Locale::ZhHans)->0,
                self.params@,
            ),
    {
        localizeError(catalogs, self.code, Locale::ZhHans, &self.params)
    }

    /// The structured response in a language: all of it comes from the same error.
    pub fn intoLocalizedResponse(self, locale: Locale, catalogs: &Vec<LocaleCatalog>) -> (result:
        ErrorResponse)
        requires
            errorTemplate(catalogs@, self.code, locale) is Some,
        ensures
            result.status == self.status,
            result.code == self.code,
            result.message@ == interpolated(
                errorTemplate(catalogs@, self.code, locale)->0,
                self.params@,
            ),
            result.messageKey@ == errorKey(self.code),
            result.params@ == self.params@,
    {
        let message = localizeError(catalogs, self.code, locale, &self.params);
        ErrorResponse {
            status: self.status,
            code: self.code,
            message,
            messageKey: copyText(self.code.messageKey()),
            params: self.params,
        }
    }
}

/// An error together with the language of the request that it answers.
#[derive(Debug)]
pub struct LocalizedApiError {
    pub error: ApiError,
    pub locale: Locale,
}

/// The structured error response; machines read `code` and `messageKey`, people read `message`.
#[derive(Debug)]
pub struct ErrorResponse {
    pub status: u16,
    pub code: ErrorCode,
    pub message: String,
    pub messageKey: String,
    pub params: MessageParams,
}

/// Adding a named value never changes the status or the code of an error.
pub proof fn lawParamKeepsStatusAndCode(error: ApiErrorView, name: Seq<char>, value: Seq<char>)
    ensures
        errorWith(error, name, value).status == error.status,
        errorWith(error, name, value).code == error.code,
{
}

// ---------------------------------------------------------------------------
// Recording errors
// ---------------------------------------------------------------------------

/// The kinds of recording failures that the control plane tells apart.
#[derive(Clone, Copy, Debug, PartialEq, Eq, Structural)]
pub enum CaptureErrorKind {
    InvalidLimits,
    CollectionChanged,
    Location,
    TransactionNotFound,
    BodyNotFound,
    Other,
}

/// A recording failure with its diagnostic text.
#[derive(Debug)]
pub struct CaptureError {
    pub kind: CaptureErrorKind,
    pub detail: String,
}

/// The answer to a failed recording operation.
pub open spec fn captureOperationError(kind: CaptureErrorKind, detail: Seq<char>) -> ApiErrorView {
    match kind {
        CaptureErrorKind::InvalidLimits => plainError(400, ErrorCode::InvalidRecordingLimits),
        CaptureErrorKind::CollectionChanged => plainError(
            409,
            ErrorCode::TransactionsCollectionChanged,
        ),
        CaptureErrorKind::Location => detailedError(
            400,
            ErrorCode::InvalidRecordingLocation,
            detail,
        ),
        _ => detailedError(500, ErrorCode::RecordingOperationFailed, detail),
    }
}

/// The answer to a failed lookup of a recorded transaction.
pub open spec fn captureLookupError(kind: CaptureErrorKind, detail: Seq<char>) -> ApiErrorView {
    match kind {
        CaptureErrorKind::TransactionNotFound => plainError(404, ErrorCode::TransactionNotFound),
        CaptureErrorKind::BodyNotFound => plainError(404, ErrorCode::BodyNotFound),
        _ => captureOperationError(kind, detail),
    }
}

/// Answers a failed recording operation.
pub fn mapCaptureOperationError(error: CaptureError) -> (result: ApiError)
    ensures
        result@ == captureOperationError(error.kind, error.detail@),
{
    match error.kind {
        CaptureErrorKind::InvalidLimits => ApiError::badRequest(ErrorCode::InvalidRecordingLimits),
        CaptureErrorKind::CollectionChanged => ApiError::conflict(
            ErrorCode::TransactionsCollectionChanged,
        ),
        CaptureErrorKind::Location => ApiError::badRequest(
            ErrorCode::InvalidRecordingLocation,
        ).withDetail(error.detail),
        _ => ApiError::internal(ErrorCode::RecordingOperationFailed).withDetail(error.detail),
    }
}

/// Answers a failed lookup of a recorded transaction.
pub fn mapCaptureLookupError(error: CaptureError) -> (result: ApiError)
    ensures
        result@ == captureLookupError(error.kind, error.detail@),
{
    match error.kind {
        CaptureErrorKind::TransactionNotFound => ApiError::notFound(ErrorCode::TransactionNotFound),
        CaptureErrorKind::BodyNotFound => ApiError::notFound(ErrorCode::BodyNotFound),
        _ => mapCaptureOperationError(error),
    }
}

// ---------------------------------------------------------------------------
// Origins
// ---------------------------------------------------------------------------

/// The web origins that may use the control plane.
pub open spec fn isListedOrigin(origin: Seq<char>) -> bool {
    ||| origin == "http://127.0.0.1:5173"@
    ||| origin == "http://localhost:5173"@
    ||| origin == "http://127.0.0.1:5174"@
    ||| origin == "http://localhost:5174"@
    ||| origin == "http://127.0.0.1:5175"@
    ||| origin == "http://localhost:5175"@
    ||| origin == "http://tauri.localhost"@
}

/// Whether the `Origin` values of a request are acceptable: none at all, or exactly one that is
/// listed. Nothing stands for a value that is not readable text.
pub open spec fn areAllowedOrigins(origins: Seq<Option<Seq<char>>>) -> bool {
    origins.len() == 0 || (origins.len() == 1 && match origins[0] {
        Some(origin) => isListedOrigin(origin),
        None => false,
    })
}

/// Whether the `Origin` fields of a request are acceptable.
pub fn isAllowedControlOrigin(headers: &http::HeaderMap<http::HeaderValue>) -> (result: bool)
    ensures
        result == areAllowedOrigins(textsNamed(headerFields(*headers), asciiLowered("origin"@))),
{
    proof {
        reveal_strlit("origin");
    }
    originsAllowed(&headerTexts(headers, "origin"))
}

/// Whether `Origin` values are acceptable.
pub fn originsAllowed(origins: &Vec<Option<String>>) -> (result: bool)
    ensures
        result == areAllowedOrigins(readings(origins@)),
{
    assert(readings(origins@).len() == origins@.len());
    if origins.len() == 0 {
        return true;
    }
    if origins.len() > 1 {
        return false;
    }
    assert(readings(origins@)[0] == optionalView(origins@[0]));
    match &origins[0] {
        Some(origin) => {
            let value = origin.as_str();
            equalText(value, "http://127.0.0.1:5173") || equalText(value, "http://localhost:5173")
                || equalText(value, "http://127.0.0.1:5174") || equalText(
                value,
                "http://localhost:5174",
            ) || equalText(value, "http://127.0.0.1:5175") || equalText(
                value,
                "http://localhost:5175",
            ) || equalText(value, "http://tauri.localhost")
        },
        None => false,
    }
}

/// Refuses a request whose origin is not allowed.
pub fn validateControlOrigin(headers: &http::HeaderMap<http::HeaderValue>) -> (result: Result<
    (),
    ApiError,
>)
    ensures
        result is Ok <==> areAllowedOrigins(
            textsNamed(headerFields(*headers), asciiLowered("origin"@)),
        ),
        result is Err ==> result->Err_0@ == plainError(403, ErrorCode::OriginForbidden),
{
    if isAllowedControlOrigin(headers) {
        Ok(())
    } else {
        Err(ApiError::forbidden(ErrorCode::OriginForbidden))
    }
}

// ---------------------------------------------------------------------------
// Event streams
// ---------------------------------------------------------------------------

/// What a subscriber of the control events observed.
#[derive(Clone, Copy, Debug, PartialEq, Eq, Structural)]
pub enum StreamObservation {
    Shutdown,
    Event,
    Lagged,
    Closed,
    ClientClosed,
    ClientMessage,
}

/// What a control event stream does next.
#[derive(Clone, Copy, Debug, PartialEq, Eq, Structural)]
pub enum StreamAction {
    SendEvent,
    SendSnapshot,
    KeepWaiting,
    Finish,
}

/// A subscriber that fell behind gets a fresh snapshot, so that it never misses the current state;
/// the stream ends on shutdown, on a closed channel or when the client leaves.
pub fn nextStreamAction(observation: StreamObservation) -> (result: StreamAction)
    ensures
        result == match observation {
            StreamObservation::Event => StreamAction::SendEvent,
            StreamObservation::Lagged => StreamAction::SendSnapshot,
            StreamObservation::ClientMessage => StreamAction::KeepWaiting,
            _ => StreamAction::Finish,
        },
{
    match observation {
        StreamObservation::Event => StreamAction::SendEvent,
        StreamObservation::Lagged => StreamAction::SendSnapshot,
        StreamObservation::ClientMessage => StreamAction::KeepWaiting,
        StreamObservation::Shutdown => StreamAction::Finish,
        StreamObservation::Closed => StreamAction::Finish,
        StreamObservation::ClientClosed => StreamAction::Finish,
    }
}

/// A failed lookup is told as not found where nothing is there, and like any other failure of the recording where
/// not: limits and locations as bad requests, a changed collection as a conflict.
pub proof fn lawRecordingFailuresAreTold(kind: CaptureErrorKind, detail: Seq<char>)
    ensures
        captureLookupError(kind, detail).status == 404 <==> kind
            == CaptureErrorKind::TransactionNotFound || kind == CaptureErrorKind::BodyNotFound,
        captureLookupError(CaptureErrorKind::TransactionNotFound, detail).code
            == ErrorCode::TransactionNotFound,
        captureLookupError(CaptureErrorKind::BodyNotFound, detail).code == ErrorCode::BodyNotFound,
        kind != CaptureErrorKind::TransactionNotFound && kind != CaptureErrorKind::BodyNotFound
            ==> captureLookupError(kind, detail) == captureOperationError(kind, detail),
        captureOperationError(kind, detail).status == 400 <==> kind
            == CaptureErrorKind::InvalidLimits || kind == CaptureErrorKind::Location,
        captureOperationError(kind, detail).status == 409 <==> kind
            == CaptureErrorKind::CollectionChanged,
        captureOperationError(CaptureErrorKind::InvalidLimits, detail).code
            == ErrorCode::InvalidRecordingLimits,
        captureOperationError(CaptureErrorKind::Location, detail) == detailedError(
            400,
            ErrorCode::InvalidRecordingLocation,
            detail,
        ),
        captureOperationError(CaptureErrorKind::CollectionChanged, detail).code
            == ErrorCode::TransactionsCollectionChanged,
        captureOperationError(CaptureErrorKind::Other, detail) == detailedError(
            500,
            ErrorCode::RecordingOperationFailed,
            detail,
        ),
{
}

/// A request is let in where it names no origin, or one that is listed; two origins, and one that cannot be read,
/// are not.
pub proof fn lawOnlyListedOriginsAreLetIn(origin: Seq<char>, other: Option<Seq<char>>)
    ensures
        areAllowedOrigins(Seq::empty()),
        !areAllowedOrigins(seq![None]),
        !areAllowedOrigins(seq![Some(origin), other]),
        areAllowedOrigins(seq![Some(origin)]) <==> seq![
            "http://127.0.0.1:5173"@,
            "http://localhost:5173"@,
            "http://127.0.0.1:5174"@,
            "http://localhost:5174"@,
            "http://127.0.0.1:5175"@,
            "http://localhost:5175"@,
            "http://tauri.localhost"@,
        ].contains(origin),
{
    let listed = seq![
        "http://127.0.0.1:5173"@,
        "http://localhost:5173"@,
        "http://127.0.0.1:5174"@,
        "http://localhost:5174"@,
        "http://127.0.0.1:5175"@,
        "http://localhost:5175"@,
        "http://tauri.localhost"@,
    ];
    assert(listed[0] == "http://127.0.0.1:5173"@ && listed[1] == "http://localhost:5173"@
        && listed[2] == "http://127.0.0.1:5174"@ && listed[3] == "http://localhost:5174"@ && listed[4]
        == "http://127.0.0.1:5175"@ && listed[5] == "http://localhost:5175"@ && listed[6]
        == "http://tauri.localhost"@);
}

/// An error carries what it is told: its status, its code, and the parameters that are added.
pub proof fn lawErrorCarriesItsDetail(status: u16, code: ErrorCode, detail: Seq<char>)
    ensures
        plainError(status, code).status == status && plainError(status, code).code == code,
        plainError(status, code).params.len() == 0,
        detailedError(status, code, detail).status == status,
        detailedError(status, code, detail).code == code,
        detailedError(status, code, detail).params == seq![("detail"@, detail)],
{
    assert(paramInserted(Seq::empty(), "detail"@, detail) =~= seq![("detail"@, detail)]);
}

} // verus!
