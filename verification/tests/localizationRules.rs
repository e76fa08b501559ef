#![allow(non_snake_case)]

use proxy_backend::controlApi::httpControl::{
    isAllowedControlOrigin, mapCaptureLookupError, mapCaptureOperationError, nextStreamAction,
    originsAllowed, validateControlOrigin, ApiError, CaptureError, CaptureErrorKind, StreamAction,
    StreamObservation,
};
use proxy_backend::localization::{
    findErrorTemplate, isCatalogComplete, loadCatalog, localizeError, parseQualityValue,
    negotiateLanguage, resolveAcceptLanguage, resolveLocaleTag, resolveRequestLocale, CatalogEntry,
    ErrorCode, Locale, LocaleCatalog, MessageParams,
};

const allCodes: [ErrorCode; 53] = [
    ErrorCode::InvalidListenPort,
    ErrorCode::InvalidListenHost,
    ErrorCode::CredentialsForbiddenWithoutAuthentication,
    ErrorCode::CredentialsRequired,
    ErrorCode::TimeoutMustBePositiveFinite,
    ErrorCode::TimeoutOutOfRange,
    ErrorCode::TimeoutBelowMillisecond,
    ErrorCode::InvalidConfiguration,
    ErrorCode::ServiceNotStartable,
    ErrorCode::ServiceStartFailed,
    ErrorCode::ServiceNotStoppable,
    ErrorCode::ServiceStopFailed,
    ErrorCode::OriginForbidden,
    ErrorCode::InvalidConfigurationRequest,
    ErrorCode::InvalidHttpProxyConfiguration,
    ErrorCode::ListenerConfigurationConflict,
    ErrorCode::HttpProxyListenerFailed,
    ErrorCode::InvalidRecordingRequest,
    ErrorCode::InvalidRecordingLimits,
    ErrorCode::InvalidRecordingLocation,
    ErrorCode::RecordingOperationFailed,
    ErrorCode::InvalidSslRequest,
    ErrorCode::InvalidSslConfiguration,
    ErrorCode::SslOperationFailed,
    ErrorCode::InvalidTransactionsQuery,
    ErrorCode::TransactionsCollectionChanged,
    ErrorCode::TransactionNotFound,
    ErrorCode::BodyNotFound,
    ErrorCode::InvalidToolRequest,
    ErrorCode::ToolNotFound,
    ErrorCode::InvalidToolConfiguration,
    ErrorCode::ToolOperationFailed,
    ErrorCode::BreakpointNotFound,
    ErrorCode::BreakpointOperationFailed,
    ErrorCode::InvalidExportRequest,
    ErrorCode::ExportOperationFailed,
    ErrorCode::InvalidRepeatRequest,
    ErrorCode::RepeatBodyUnavailable,
    ErrorCode::UnsupportedRepeatTransaction,
    ErrorCode::RepeatRecordingUnavailable,
    ErrorCode::AdvancedRepeatConfirmationRequired,
    ErrorCode::InvalidAdvancedRepeatPlan,
    ErrorCode::LoadTestNotFound,
    ErrorCode::PluginNotFound,
    ErrorCode::PluginOperationFailed,
    ErrorCode::InvalidProcessSelectionRequest,
    ErrorCode::ProcessSelectionOperationFailed,
    ErrorCode::ConfigurationPersistenceFailed,
    ErrorCode::ClientNodeUnavailable,
    ErrorCode::ClientPackageAuthenticationFailed,
    ErrorCode::ClientPackageBusy,
    ErrorCode::ClientPackageOperationFailed,
    ErrorCode::ClientPackageServiceUnavailable,
];

fn englishCatalog() -> LocaleCatalog {
    LocaleCatalog {
        locale: Locale::En,
        entries: allCodes
            .iter()
            .map(|code| CatalogEntry {
                key: code.messageKey().to_string(),
                template: format!("{}: {{detail}}", code.messageKey()),
            })
            .collect(),
    }
}

#[test]
fn everyErrorHasItsOwnKey() {
    let mut keys: Vec<&str> = allCodes.iter().map(|code| code.messageKey()).collect();
    assert!(keys.iter().all(|key| key.starts_with("error.")));
    keys.sort();
    keys.dedup();
    assert_eq!(keys.len(), allCodes.len());
    assert_eq!(ErrorCode::ServiceStartFailed.messageKey(), "error.serviceStartFailed");
}

#[test]
fn languageTagsAreResolved() {
    assert_eq!(resolveLocaleTag("en-US"), Some(Locale::En));
    assert_eq!(resolveLocaleTag("zh"), Some(Locale::ZhHans));
    assert_eq!(resolveLocaleTag("zh-TW"), Some(Locale::ZhHant));
    assert_eq!(resolveLocaleTag("zh-Hant-HK"), Some(Locale::ZhHant));
    assert_eq!(resolveLocaleTag("zh-CN"), Some(Locale::ZhHans));
    assert_eq!(resolveLocaleTag("pt-BR"), Some(Locale::PtBr));
    assert_eq!(resolveLocaleTag("JA"), Some(Locale::Ja));
    assert_eq!(resolveLocaleTag("xx"), None);
    assert_eq!(resolveLocaleTag(""), None);
}

#[test]
fn tagSpellingDoesNotMatter() {
    for tag in ["pt-BR", "PT_br", " pt-br\u{a0}", "\tPt_Br"] {
        assert_eq!(resolveLocaleTag(tag), Some(Locale::PtBr), "{tag}");
    }
    assert_eq!(resolveLocaleTag("zh_hant"), resolveLocaleTag(" ZH-Hant "));
    assert_eq!(resolveLocaleTag("xx_yy"), None);
}

#[test]
fn localesHaveTheirCodes() {
    assert_eq!(Locale::ZhHans.code(), "zh-Hans");
    assert_eq!(Locale::PtBr.code(), "pt-BR");
    assert_eq!(Locale::En.code(), "en");
}

#[test]
fn qualityValuesKeepTheirForm() {
    assert_eq!(parseQualityValue("1"), Some(1000));
    assert_eq!(parseQualityValue("1.000"), Some(1000));
    assert_eq!(parseQualityValue("0.5"), Some(500));
    assert_eq!(parseQualityValue("0.123"), Some(123));
    assert_eq!(parseQualityValue("0"), Some(0));
    assert_eq!(parseQualityValue("1.001"), None);
    assert_eq!(parseQualityValue("0.1234"), None);
    assert_eq!(parseQualityValue("2"), None);
    assert_eq!(parseQualityValue(""), None);
}

fn fields(name: &'static str, values: &[&str]) -> http::HeaderMap<http::HeaderValue> {
    let mut headers = http::HeaderMap::new();
    for value in values {
        headers.append(name, http::HeaderValue::from_str(value).unwrap());
    }
    headers
}

#[test]
fn mostWantedLanguageWins() {
    let header = |text: &str| fields("accept-language", &[text]);
    assert_eq!(resolveAcceptLanguage(&header("fr;q=0.3, de;q=0.8, ja;q=0.5")), Some(Locale::De));
    assert_eq!(resolveAcceptLanguage(&header("xx, ko;q=0.1")), Some(Locale::Ko));
    assert_eq!(resolveAcceptLanguage(&header("en;q=0, es;q=0.2")), Some(Locale::Es));
    assert_eq!(resolveAcceptLanguage(&header("ru, fr")), Some(Locale::Ru));
    assert_eq!(resolveAcceptLanguage(&fields("accept-language", &[])), None);
    assert_eq!(
        resolveAcceptLanguage(&fields("accept-language", &["de;q=0.1", "fr;q=0.2"])),
        Some(Locale::Fr)
    );
    assert_eq!(negotiateLanguage(&vec![None, Some("ja".to_string())]), Some(Locale::Ja));
}

#[test]
fn queryDecidesBeforeTheHeader() {
    let accept = fields("accept-language", &["de"]);
    assert_eq!(resolveRequestLocale(Some("locale=ja"), &accept), Locale::Ja);
    assert_eq!(resolveRequestLocale(None, &accept), Locale::De);
    assert_eq!(resolveRequestLocale(None, &fields("x", &[])), Locale::En);
}

#[test]
fn catalogsAreReadFromJson() {
    let catalog = loadCatalog(Locale::Fr, "\u{feff}{\"b\":\"2\",\"a\":\"1\"}").unwrap();
    assert_eq!(catalog.locale, Locale::Fr);
    assert_eq!(catalog.entries.len(), 2);
    assert_eq!(catalog.entries[0].key, "a");
    assert_eq!(catalog.entries[0].template, "1");
    assert!(loadCatalog(Locale::Fr, "{\"a\":1}").is_none());
    assert!(loadCatalog(Locale::Fr, "[]").is_none());
}

#[test]
fn missingTranslationsFallBackToEnglish() {
    let catalogs = vec![
        englishCatalog(),
        LocaleCatalog {
            locale: Locale::De,
            entries: vec![CatalogEntry {
                key: "error.toolNotFound".to_string(),
                template: "Werkzeug fehlt".to_string(),
            }],
        },
    ];
    assert!(isCatalogComplete(&catalogs));
    assert_eq!(
        findErrorTemplate(&catalogs, ErrorCode::ToolNotFound, Locale::De),
        Some("Werkzeug fehlt".to_string())
    );
    assert_eq!(
        findErrorTemplate(&catalogs, ErrorCode::BodyNotFound, Locale::De),
        Some("error.bodyNotFound: {detail}".to_string())
    );
    assert_eq!(findErrorTemplate(&vec![], ErrorCode::BodyNotFound, Locale::De), None);
    let mut short = englishCatalog();
    short.entries.pop();
    assert!(!isCatalogComplete(&vec![short]));
}

#[test]
fn parametersAreFilledIn() {
    let catalogs = vec![englishCatalog()];
    let mut params = MessageParams::new();
    params.insert("detail", "x".to_string());
    params.insert("detail", "disk full".to_string());
    assert_eq!(
        localizeError(&catalogs, ErrorCode::ToolOperationFailed, Locale::Ko, &params),
        "error.toolOperationFailed: disk full"
    );
}

#[test]
fn errorsKeepStatusCodeAndParams() {
    let catalogs = vec![englishCatalog()];
    let error = ApiError::conflict(ErrorCode::PluginOperationFailed)
        .withParam("b", "2".to_string())
        .withParam("a", "1".to_string())
        .withDetail("why".to_string());
    assert_eq!(error.message(&catalogs), "error.pluginOperationFailed: why");
    let response = error.intoLocalizedResponse(Locale::Fr, &catalogs);
    assert_eq!(response.status, 409);
    assert_eq!(response.messageKey, "error.pluginOperationFailed");
    assert_eq!(response.message, "error.pluginOperationFailed: why");
    let names: Vec<&str> = response.params.entries.iter().map(|p| p.name.as_str()).collect();
    assert_eq!(names, vec!["a", "b", "detail"]);
}

#[test]
fn errorsHaveTheirStatus() {
    let code = ErrorCode::ToolNotFound;
    assert_eq!(ApiError::badRequest(code).status, 400);
    assert_eq!(ApiError::unauthorized(code).status, 401);
    assert_eq!(ApiError::forbidden(code).status, 403);
    assert_eq!(ApiError::notFound(code).status, 404);
    assert_eq!(ApiError::conflict(code).status, 409);
    assert_eq!(ApiError::internal(code).status, 500);
    assert_eq!(ApiError::unavailable(code).status, 503);
    assert_eq!(ApiError::ofStatus(418, code).status, 418);
    assert_eq!(ApiError::notFound(code).withLocale(Locale::Ja).locale, Locale::Ja);
}

#[test]
fn recordingFailuresAreAnswered() {
    let failure = |kind| CaptureError { kind, detail: "d".to_string() };
    let answer = |error: ApiError| (error.status, error.code, error.params.entries.len());
    assert_eq!(
        answer(mapCaptureOperationError(failure(CaptureErrorKind::InvalidLimits))),
        (400, ErrorCode::InvalidRecordingLimits, 0)
    );
    assert_eq!(
        answer(mapCaptureOperationError(failure(CaptureErrorKind::CollectionChanged))),
        (409, ErrorCode::TransactionsCollectionChanged, 0)
    );
    assert_eq!(
        answer(mapCaptureOperationError(failure(CaptureErrorKind::Location))),
        (400, ErrorCode::InvalidRecordingLocation, 1)
    );
    assert_eq!(
        answer(mapCaptureOperationError(failure(CaptureErrorKind::TransactionNotFound))),
        (500, ErrorCode::RecordingOperationFailed, 1)
    );
    assert_eq!(
        answer(mapCaptureLookupError(failure(CaptureErrorKind::TransactionNotFound))),
        (404, ErrorCode::TransactionNotFound, 0)
    );
    assert_eq!(
        answer(mapCaptureLookupError(failure(CaptureErrorKind::BodyNotFound))),
        (404, ErrorCode::BodyNotFound, 0)
    );
    assert_eq!(
        answer(mapCaptureLookupError(failure(CaptureErrorKind::Other))),
        (500, ErrorCode::RecordingOperationFailed, 1)
    );
}

#[test]
fn onlyListedOriginsAreAllowed() {
    let one = |text: &str| fields("origin", &[text]);
    assert!(isAllowedControlOrigin(&fields("origin", &[])));
    assert!(isAllowedControlOrigin(&one("http://localhost:5174")));
    assert!(isAllowedControlOrigin(&one("http://tauri.localhost")));
    assert!(!isAllowedControlOrigin(&one("http://localhost:5176")));
    assert!(!isAllowedControlOrigin(&one("https://localhost:5174")));
    assert!(!originsAllowed(&vec![None]));
    assert!(!isAllowedControlOrigin(&fields(
        "origin",
        &["http://localhost:5174", "http://localhost:5174"]
    )));
    assert!(!isAllowedControlOrigin(&fields("origin", &["http://localhost:5174\u{e9}"])));
    assert!(validateControlOrigin(&fields("origin", &[])).is_ok());
    let refusal = validateControlOrigin(&one("http://evil.example")).unwrap_err();
    assert_eq!((refusal.status, refusal.code), (403, ErrorCode::OriginForbidden));
}

#[test]
fn laggingStreamsGetASnapshot() {
    assert_eq!(nextStreamAction(StreamObservation::Event), StreamAction::SendEvent);
    assert_eq!(nextStreamAction(StreamObservation::Lagged), StreamAction::SendSnapshot);
    assert_eq!(nextStreamAction(StreamObservation::ClientMessage), StreamAction::KeepWaiting);
    assert_eq!(nextStreamAction(StreamObservation::Shutdown), StreamAction::Finish);
    assert_eq!(nextStreamAction(StreamObservation::Closed), StreamAction::Finish);
    assert_eq!(nextStreamAction(StreamObservation::ClientClosed), StreamAction::Finish);
}
