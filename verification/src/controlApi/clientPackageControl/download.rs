//! Admitting a download: what a request may ask for and in which order it is checked.

use crate::controlApi::clientPackageControl::packageIdentity::{
    isValidApplicationId, isValidApplicationName, validApplicationId, validApplicationName,
};
use crate::controlApi::clientPackageControl::{
    maximumClientIconBytes, ClientPackageArtifact, ClientPackageBuildError,
};
use crate::controlApi::httpControl::{plainError, ApiError, ApiErrorView};
use crate::encoding::{base64Bytes, decodeBase64};
use crate::localization::ErrorCode;
use crate::text::{
    concatThree, copyText, decimal, decimalText, optionalView, trimText, trimmed,
};
use vstd::prelude::*;

verus! {

/// A request for a package: credentials and, if the client chooses them, an identity and an icon.
#[derive(Debug)]
pub struct ClientPackageDownloadRequest {
    pub username: String,
    pub password: String,
    pub applicationId: Option<String>,
    pub applicationName: Option<String>,
    pub iconBase64: Option<String>,
}

/// The mathematical value of a request.
pub struct DownloadRequestView {
    pub username: Seq<char>,
    pub password: Seq<char>,
    pub applicationId: Option<Seq<char>>,
    pub applicationName: Option<Seq<char>>,
    pub iconBase64: Option<Seq<char>>,
}

impl View for ClientPackageDownloadRequest {
    type V = DownloadRequestView;

    open spec fn view(&self) -> DownloadRequestView {
        DownloadRequestView {
            username: self.username@,
            password: self.password@,
            applicationId: optionalView(self.applicationId),
            applicationName: optionalView(self.applicationName),
            iconBase64: optionalView(self.iconBase64),
        }
    }
}

/// A text of white space alone counts as none; any other text stays as it is.
pub open spec fn withoutBlank(value: Option<Seq<char>>) -> Option<Seq<char>> {
    match value {
        Some(text) => if trimmed(text).len() == 0 {
            None
        } else {
            Some(text)
        },
        None => None,
    }
}

/// Turns a text of white space alone into none.
pub fn normalizeOptionalText(value: Option<String>) -> (result: Option<String>)
    ensures
        optionalView(result) == withoutBlank(optionalView(value)),
{
    match value {
        Some(text) => {
            let inner = trimText(text.as_str());
            if inner.as_str().is_empty() {
                None
            } else {
                Some(text)
            }
        },
        None => None,
    }
}

/// A request whose blank choices are gone.
pub open spec fn normalizedRequest(request: DownloadRequestView) -> DownloadRequestView {
    DownloadRequestView {
        applicationId: withoutBlank(request.applicationId),
        applicationName: withoutBlank(request.applicationName),
        iconBase64: match request.iconBase64 {
            Some(text) => if text.len() == 0 {
                None
            } else {
                Some(text)
            },
            None => None,
        },
        ..request
    }
}

/// Whether an icon's decoded bytes may be used.
pub open spec fn isUsableIcon(decoded: Option<Seq<u8>>) -> bool {
    decoded matches Some(bytes) && 1 <= bytes.len() <= maximumClientIconBytes
}

/// Whether an icon's decoded bytes may be used.
pub fn checkIcon(decoded: &Option<Vec<u8>>) -> (result: bool)
    ensures
        result == isUsableIcon(
            match *decoded {
                Some(bytes) => Some(bytes@),
                None => None,
            },
        ),
{
    match decoded {
        Some(bytes) => bytes.len() >= 1 && bytes.len() <= maximumClientIconBytes,
        None => false,
    }
}

/// Whether the choices of a normalized request can all be met.
pub open spec fn isUsableCustomization(request: DownloadRequestView) -> bool {
    &&& (request.applicationId matches Some(text) ==> validApplicationId(text))
    &&& (request.applicationName matches Some(text) ==> validApplicationName(text))
    &&& (request.iconBase64 matches Some(text) ==> isUsableIcon(base64Bytes(text)))
}

/// Normalizes the choices of a request; `None` when one of them cannot be met.
pub fn normalizeClientPackageCustomization(request: ClientPackageDownloadRequest) -> (result:
    Option<ClientPackageDownloadRequest>)
    ensures
        match result {
            Some(normalized) => normalized@ == normalizedRequest(request@)
                && isUsableCustomization(normalized@),
            None => !isUsableCustomization(normalizedRequest(request@)),
        },
{
    let ghost wanted = normalizedRequest(request@);
    let applicationId = normalizeOptionalText(request.applicationId);
    let applicationName = normalizeOptionalText(request.applicationName);
    match &applicationId {
        Some(text) => {
            if !isValidApplicationId(text.as_str()) {
                return None;
            }
        },
        None => {},
    }
    match &applicationName {
        Some(text) => {
            if !isValidApplicationName(text.as_str()) {
                return None;
            }
        },
        None => {},
    }
    let iconBase64 = match request.iconBase64 {
        Some(text) => {
            if text.as_str().is_empty() {
                None
            } else {
                Some(text)
            }
        },
        None => None,
    };
    match &iconBase64 {
        Some(text) => {
            let decoded = decodeBase64(text.as_str());
            if !checkIcon(&decoded) {
                return None;
            }
        },
        None => {},
    }
    Some(
        ClientPackageDownloadRequest {
            username: request.username,
            password: request.password,
            applicationId,
            applicationName,
            iconBase64,
        },
    )
}

/// Normalizing twice changes nothing more.
pub proof fn lawNormalizationIsStable(request: DownloadRequestView)
    ensures
        normalizedRequest(normalizedRequest(request)) == normalizedRequest(request),
{
}

/// The checks that a download passes, in order.
#[derive(Clone, Copy, Debug, PartialEq, Eq, Structural)]
pub enum DownloadStep {
    /// Ask the account service about the credentials.
    VerifyCredentials,
    /// Ask the account service for an active rule set.
    CheckRules,
    /// Find the node's address.
    ResolveNode,
    /// Look at the remote entry.
    CheckEntry,
    /// Build the package.
    Build,
    /// Send the package.
    Send,
}

/// What a check came to.
#[derive(Clone, Copy, Debug, PartialEq, Eq, Structural)]
pub enum DownloadOutcome {
    /// The account service answered.
    Answered(bool),
    /// The account service could not be asked.
    Unreachable,
    /// Whether a node's address was found.
    Node { found: bool },
    /// Whether the remote entry is open.
    Entry { enabled: bool },
    /// The package was built.
    Built,
    /// The package was not built.
    NotBuilt(ClientPackageBuildError),
}

/// The first step of a download, or why it is refused: what cannot be met is refused before
/// missing credentials.
pub open spec fn firstDownloadStep(usable: bool, username: Seq<char>, password: Seq<char>) -> Result<
    DownloadStep,
    ApiErrorView,
> {
    if !usable {
        Err(plainError(400, ErrorCode::InvalidConfigurationRequest))
    } else if username.len() == 0 || password.len() == 0 {
        Err(plainError(401, ErrorCode::ClientPackageAuthenticationFailed))
    } else {
        Ok(DownloadStep::VerifyCredentials)
    }
}

/// The step that follows an outcome, or why the download is refused. An outcome that does not
/// belong to the step counts as a failed operation.
pub open spec fn nextDownloadStep(step: DownloadStep, outcome: DownloadOutcome) -> Result<
    DownloadStep,
    ApiErrorView,
> {
    let unavailable = plainError(503, ErrorCode::ClientPackageServiceUnavailable);
    match (step, outcome) {
        (DownloadStep::VerifyCredentials, DownloadOutcome::Unreachable) => Err(unavailable),
        (DownloadStep::VerifyCredentials, DownloadOutcome::Answered(accepted)) => if accepted {
            Ok(DownloadStep::CheckRules)
        } else {
            Err(plainError(401, ErrorCode::ClientPackageAuthenticationFailed))
        },
        (DownloadStep::CheckRules, DownloadOutcome::Unreachable) => Err(unavailable),
        (DownloadStep::CheckRules, DownloadOutcome::Answered(available)) => if available {
            Ok(DownloadStep::ResolveNode)
        } else {
            Err(unavailable)
        },
        (DownloadStep::ResolveNode, DownloadOutcome::Node { found }) => if found {
            Ok(DownloadStep::CheckEntry)
        } else {
            Err(plainError(400, ErrorCode::ClientNodeUnavailable))
        },
        (DownloadStep::CheckEntry, DownloadOutcome::Entry { enabled }) => if enabled {
            Ok(DownloadStep::Build)
        } else {
            Err(unavailable)
        },
        (DownloadStep::Build, DownloadOutcome::Built) => Ok(DownloadStep::Send),
        (DownloadStep::Build, DownloadOutcome::NotBuilt(ClientPackageBuildError::Busy)) => Err(
            plainError(409, ErrorCode::ClientPackageBusy),
        ),
        _ => Err(plainError(500, ErrorCode::ClientPackageOperationFailed)),
    }
}

/// The view of a step or of the error that ends the download.
pub open spec fn stepResult(result: Result<DownloadStep, ApiError>) -> Result<
    DownloadStep,
    ApiErrorView,
> {
    match result {
        Ok(step) => Ok(step),
        Err(error) => Err(error@),
    }
}

/// Starts a download with the normalized request.
pub fn beginDownload(request: &Option<ClientPackageDownloadRequest>) -> (result: Result<
    DownloadStep,
    ApiError,
>)
    ensures
        stepResult(result) == match *request {
            Some(request) => firstDownloadStep(true, request.username@, request.password@),
            None => firstDownloadStep(false, Seq::empty(), Seq::empty()),
        },
{
    match request {
        None => Err(ApiError::badRequest(ErrorCode::InvalidConfigurationRequest)),
        Some(request) => if request.username.as_str().is_empty() || request.password.as_str().is_empty() {
            Err(ApiError::unauthorized(ErrorCode::ClientPackageAuthenticationFailed))
        } else {
            Ok(DownloadStep::VerifyCredentials)
        },
    }
}

/// Moves a download on.
pub fn downloadGeneratedClientPackage(step: DownloadStep, outcome: DownloadOutcome) -> (result:
    Result<DownloadStep, ApiError>)
    ensures
        stepResult(result) == nextDownloadStep(step, outcome),
{
    match (step, outcome) {
        (DownloadStep::VerifyCredentials, DownloadOutcome::Unreachable) => Err(
            ApiError::unavailable(ErrorCode::ClientPackageServiceUnavailable),
        ),
        (DownloadStep::VerifyCredentials, DownloadOutcome::Answered(accepted)) => if accepted {
            Ok(DownloadStep::CheckRules)
        } else {
            Err(ApiError::unauthorized(ErrorCode::ClientPackageAuthenticationFailed))
        },
        (DownloadStep::CheckRules, DownloadOutcome::Unreachable) => Err(
            ApiError::unavailable(ErrorCode::ClientPackageServiceUnavailable),
        ),
        (DownloadStep::CheckRules, DownloadOutcome::Answered(available)) => if available {
            Ok(DownloadStep::ResolveNode)
        } else {
            Err(ApiError::unavailable(ErrorCode::ClientPackageServiceUnavailable))
        },
        (DownloadStep::ResolveNode, DownloadOutcome::Node { found }) => if found {
            Ok(DownloadStep::CheckEntry)
        } else {
            Err(ApiError::badRequest(ErrorCode::ClientNodeUnavailable))
        },
        (DownloadStep::CheckEntry, DownloadOutcome::Entry { enabled }) => if enabled {
            Ok(DownloadStep::Build)
        } else {
            Err(ApiError::unavailable(ErrorCode::ClientPackageServiceUnavailable))
        },
        (DownloadStep::Build, DownloadOutcome::Built) => Ok(DownloadStep::Send),
        (DownloadStep::Build, DownloadOutcome::NotBuilt(ClientPackageBuildError::Busy)) => Err(
            ApiError::conflict(ErrorCode::ClientPackageBusy),
        ),
        _ => Err(ApiError::internal(ErrorCode::ClientPackageOperationFailed)),
    }
}

/// The steps of a download that got as far as the given outcomes.
pub open spec fn downloadPath(start: DownloadStep, outcomes: Seq<DownloadOutcome>) -> Result<
    DownloadStep,
    ApiErrorView,
>
    decreases outcomes.len(),
{
    if outcomes.len() == 0 {
        Ok(start)
    } else {
        match downloadPath(start, outcomes.drop_last()) {
            Ok(step) => nextDownloadStep(step, outcomes.last()),
            Err(error) => Err(error),
        }
    }
}

/// A package is sent only after the credentials were accepted, a rule set was active, a node was
/// found and the remote entry was open, in this order.
pub proof fn lawPackageIsSentOnlyWhenAdmitted(outcomes: Seq<DownloadOutcome>)
    requires
        downloadPath(DownloadStep::VerifyCredentials, outcomes) == Ok::<
            DownloadStep,
            ApiErrorView,
        >(DownloadStep::Send),
    ensures
        outcomes == seq![
            DownloadOutcome::Answered(true),
            DownloadOutcome::Answered(true),
            DownloadOutcome::Node { found: true },
            DownloadOutcome::Entry { enabled: true },
            DownloadOutcome::Built,
        ],
{
    lemmaDownloadPath(outcomes, DownloadStep::Send);
    let all = seq![
        DownloadOutcome::Answered(true),
        DownloadOutcome::Answered(true),
        DownloadOutcome::Node { found: true },
        DownloadOutcome::Entry { enabled: true },
        DownloadOutcome::Built,
    ];
    assert(outcomes == all.take(5));
    assert(all.take(5) == all);
}

/// How many checks stand before a step.
pub open spec fn checksBefore(step: DownloadStep) -> int {
    match step {
        DownloadStep::VerifyCredentials => 0,
        DownloadStep::CheckRules => 1,
        DownloadStep::ResolveNode => 2,
        DownloadStep::CheckEntry => 3,
        DownloadStep::Build => 4,
        DownloadStep::Send => 5,
    }
}

proof fn lemmaDownloadPath(outcomes: Seq<DownloadOutcome>, reached: DownloadStep)
    requires
        downloadPath(DownloadStep::VerifyCredentials, outcomes) == Ok::<
            DownloadStep,
            ApiErrorView,
        >(reached),
    ensures
        outcomes == seq![
            DownloadOutcome::Answered(true),
            DownloadOutcome::Answered(true),
            DownloadOutcome::Node { found: true },
            DownloadOutcome::Entry { enabled: true },
            DownloadOutcome::Built,
        ].take(checksBefore(reached)),
    decreases outcomes.len(),
{
    let all = seq![
        DownloadOutcome::Answered(true),
        DownloadOutcome::Answered(true),
        DownloadOutcome::Node { found: true },
        DownloadOutcome::Entry { enabled: true },
        DownloadOutcome::Built,
    ];
    if outcomes.len() > 0 {
        let before = downloadPath(DownloadStep::VerifyCredentials, outcomes.drop_last());
        match before {
            Ok(step) => {
                lemmaDownloadPath(outcomes.drop_last(), step);
                assert(checksBefore(reached) == checksBefore(step) + 1);
                assert(outcomes == outcomes.drop_last().push(outcomes.last()));
                assert(outcomes == all.take(checksBefore(reached)));
            },
            Err(_) => {},
        }
    } else {
        assert(outcomes == all.take(0));
    }
}

/// One header of a response.
#[derive(Debug)]
pub struct ResponseHeader {
    pub name: &'static str,
    pub value: String,
}

/// The headers of a sent package: its type, length and file name, and that it must not be stored.
pub fn downloadHeaders(artifact: &ClientPackageArtifact) -> (result: Vec<ResponseHeader>)
    ensures
        result@.len() == 4,
        result@[0].name@ == "content-type"@,
        result@[0].value@ == "application/vnd.android.package-archive"@,
        result@[1].name@ == "content-length"@,
        result@[1].value@ == decimal(artifact@.sizeBytes as nat),
        result@[2].name@ == "content-disposition"@,
        result@[2].value@ == "attachment; filename=\""@ + artifact@.fileName + "\""@,
        result@[3].name@ == "cache-control"@,
        result@[3].value@ == "no-store"@,
{
    let mut headers: Vec<ResponseHeader> = Vec::new();
    headers.push(
        ResponseHeader {
            name: "content-type",
            value: copyText("application/vnd.android.package-archive"),
        },
    );
    headers.push(
        ResponseHeader { name: "content-length", value: decimalText(artifact.sizeBytes) },
    );
    headers.push(
        ResponseHeader {
            name: "content-disposition",
            value: concatThree("attachment; filename=\"", artifact.fileName.as_str(), "\""),
        },
    );
    headers.push(ResponseHeader { name: "cache-control", value: copyText("no-store") });
    headers
}

/// A request whose every check is passed is sent its package.
pub proof fn lawAdmittedRequestIsSent()
    ensures
        downloadPath(
            DownloadStep::VerifyCredentials,
            seq![
                DownloadOutcome::Answered(true),
                DownloadOutcome::Answered(true),
                DownloadOutcome::Node { found: true },
                DownloadOutcome::Entry { enabled: true },
                DownloadOutcome::Built,
            ],
        ) == Ok::<DownloadStep, ApiErrorView>(DownloadStep::Send),
{
    let start = DownloadStep::VerifyCredentials;
    let none = Seq::<DownloadOutcome>::empty();
    let one = none.push(DownloadOutcome::Answered(true));
    let two = one.push(DownloadOutcome::Answered(true));
    let three = two.push(DownloadOutcome::Node { found: true });
    let four = three.push(DownloadOutcome::Entry { enabled: true });
    let five = four.push(DownloadOutcome::Built);
    assert(one.drop_last() =~= none && two.drop_last() =~= one && three.drop_last() =~= two
        && four.drop_last() =~= three && five.drop_last() =~= four);
    assert(downloadPath(start, none) == Ok::<DownloadStep, ApiErrorView>(start));
    assert(downloadPath(start, one) == Ok::<DownloadStep, ApiErrorView>(DownloadStep::CheckRules));
    assert(downloadPath(start, two) == Ok::<DownloadStep, ApiErrorView>(DownloadStep::ResolveNode));
    assert(downloadPath(start, three) == Ok::<DownloadStep, ApiErrorView>(DownloadStep::CheckEntry));
    assert(downloadPath(start, four) == Ok::<DownloadStep, ApiErrorView>(DownloadStep::Build));
    assert(five =~= seq![
        DownloadOutcome::Answered(true),
        DownloadOutcome::Answered(true),
        DownloadOutcome::Node { found: true },
        DownloadOutcome::Entry { enabled: true },
        DownloadOutcome::Built,
    ]);
}

/// Each check that is not passed is answered for its own reason: wrong credentials as such, a node that cannot
/// be named as such, a build under way as such, and whatever is not there as unavailable.
pub proof fn lawRefusalTellsItsReason(usable: bool, username: Seq<char>, password: Seq<char>)
    ensures
        ({
            let refused = |step: DownloadStep, outcome: DownloadOutcome, status: u16, code: ErrorCode|
                nextDownloadStep(step, outcome) == Err::<DownloadStep, ApiErrorView>(
                    plainError(status, code),
                );
            let unavailable = ErrorCode::ClientPackageServiceUnavailable;
            &&& refused(
                DownloadStep::VerifyCredentials,
                DownloadOutcome::Answered(false),
                401,
                ErrorCode::ClientPackageAuthenticationFailed,
            )
            &&& refused(
                DownloadStep::VerifyCredentials,
                DownloadOutcome::Unreachable,
                503,
                unavailable,
            )
            &&& refused(
                DownloadStep::CheckRules,
                DownloadOutcome::Answered(false),
                503,
                unavailable,
            )
            &&& refused(DownloadStep::CheckRules, DownloadOutcome::Unreachable, 503, unavailable)
            &&& refused(
                DownloadStep::ResolveNode,
                DownloadOutcome::Node { found: false },
                400,
                ErrorCode::ClientNodeUnavailable,
            )
            &&& refused(
                DownloadStep::CheckEntry,
                DownloadOutcome::Entry { enabled: false },
                503,
                unavailable,
            )
            &&& refused(
                DownloadStep::Build,
                DownloadOutcome::NotBuilt(ClientPackageBuildError::Busy),
                409,
                ErrorCode::ClientPackageBusy,
            )
            &&& refused(
                DownloadStep::Build,
                DownloadOutcome::NotBuilt(ClientPackageBuildError::Failed),
                500,
                ErrorCode::ClientPackageOperationFailed,
            )
        }),
        firstDownloadStep(usable, username, password) is Ok <==> usable && username.len() > 0
            && password.len() > 0,
        !usable ==> firstDownloadStep(usable, username, password) == Err::<
            DownloadStep,
            ApiErrorView,
        >(plainError(400, ErrorCode::InvalidConfigurationRequest)),
        usable && (username.len() == 0 || password.len() == 0) ==> firstDownloadStep(
            usable,
            username,
            password,
        ) == Err::<DownloadStep, ApiErrorView>(
            plainError(401, ErrorCode::ClientPackageAuthenticationFailed),
        ),
{
}

/// What a client leaves blank is as if it were not said; everything else is taken as it was written, the
/// credentials among it.
pub proof fn lawBlanksSayNothing(request: DownloadRequestView)
    ensures
        ({
            let normal = normalizedRequest(request);
            &&& normal.username == request.username && normal.password == request.password
            &&& normal.applicationId == request.applicationId || normal.applicationId is None
            &&& request.applicationId matches Some(text) ==> (normal.applicationId is None
                <==> trimmed(text).len() == 0)
            &&& normal.applicationName == request.applicationName || normal.applicationName is None
            &&& request.applicationName matches Some(text) ==> (normal.applicationName is None
                <==> trimmed(text).len() == 0)
            &&& normal.iconBase64 == request.iconBase64 || normal.iconBase64 is None
            &&& request.iconBase64 matches Some(text) ==> (normal.iconBase64 is None <==> text.len()
                == 0)
        }),
{
}

/// A customization is used exactly where each part that is given holds: a valid identity, a valid name and an
/// icon of one byte to a mebibyte.
pub proof fn lawCustomizationIsCheckedPartByPart(request: DownloadRequestView)
    ensures
        request.applicationId is None && request.applicationName is None && request.iconBase64 is None
            ==> isUsableCustomization(request),
        isUsableCustomization(request) ==> (request.iconBase64 matches Some(text) ==> (base64Bytes(
            text,
        ) matches Some(bytes) && 0 < bytes.len() <= 1024 * 1024)),
        isUsableCustomization(request) ==> (request.applicationId matches Some(text)
            ==> validApplicationId(text)),
        isUsableCustomization(request) ==> (request.applicationName matches Some(text)
            ==> validApplicationName(text)),
        (request.applicationId matches Some(text) ==> validApplicationId(text)) && (
        request.applicationName matches Some(text) ==> validApplicationName(text)) && (
        request.iconBase64 matches Some(text) ==> (base64Bytes(text) matches Some(bytes) && 0
            < bytes.len() <= 1024 * 1024)) ==> isUsableCustomization(request),
{
}

/// The name and password are checked first, then the rules, the node and the entry; only then is a package built,
/// and only a built one is sent.
pub proof fn lawChecksComeInOrder()
    ensures
        checksBefore(DownloadStep::VerifyCredentials) == 0,
        checksBefore(DownloadStep::VerifyCredentials) < checksBefore(DownloadStep::CheckRules),
        checksBefore(DownloadStep::CheckRules) < checksBefore(DownloadStep::ResolveNode),
        checksBefore(DownloadStep::ResolveNode) < checksBefore(DownloadStep::CheckEntry),
        checksBefore(DownloadStep::CheckEntry) < checksBefore(DownloadStep::Build),
        checksBefore(DownloadStep::Build) < checksBefore(DownloadStep::Send),
        checksBefore(DownloadStep::Send) == 5,
{
}

} // verus!
