//! Language negotiation, stable error codes and localized error messages.

use crate::controlApi::headerFields::{headerFields, headerTexts, readings, textsNamed};
use crate::text::{
    asciiLower, asciiLowerText, asciiLowered, charsOf, concatThree, copyText, decimalValue,
    equalIgnoringAsciiCase, equalText, indexOf, isDigit, isWhitespace, lawFirstPieceEndsAtSeparator,
    joined, lawPatternIsReplaced, lawSplitOnceUndoesPairing, lawSplitUndoesJoin, lemmaIndexOf,
    lemmaTextOrderTotal, lemmaTextOrderTransitive, lemmaTrimmedEnds, lessText, optionalView, pushChar, replaceText, replaced, splitOn, splitOnce, splitOnceText,
    splitText, startsWith, startsWithText, textLess, textOfRange, trimText, trimmed, trimmedEnd,
    trimmedStart, views,
};
use vstd::prelude::*;

verus! {

/// The languages that the control protocol speaks.
#[derive(Clone, Copy, Debug, PartialEq, Eq, Hash, Structural)]
pub enum Locale {
    En,
    ZhHans,
    ZhHant,
    Ja,
    Ko,
    Es,
    Fr,
    De,
    PtBr,
    Ru,
}

/// The BCP 47 code of a language.
pub open spec fn localeCode(locale: Locale) -> Seq<char> {
    match locale {
        Locale::En => "en"@,
        Locale::ZhHans => "zh-Hans"@,
        Locale::ZhHant => "zh-Hant"@,
        Locale::Ja => "ja"@,
        Locale::Ko => "ko"@,
        Locale::Es => "es"@,
        Locale::Fr => "fr"@,
        Locale::De => "de"@,
        Locale::PtBr => "pt-BR"@,
        Locale::Ru => "ru"@,
    }
}

impl Locale {
    /// The stable BCP 47 code, fit for HTML, HTTP and WebSocket query parameters.
    pub fn code(self) -> (result: &'static str)
        ensures
            result@ == localeCode(self),
    {
        match self {
            Locale::En => "en",
            Locale::ZhHans => "zh-Hans",
            Locale::ZhHant => "zh-Hant",
            Locale::Ja => "ja",
            Locale::Ko => "ko",
            Locale::Es => "es",
            Locale::Fr => "fr",
            Locale::De => "de",
            Locale::PtBr => "pt-BR",
            Locale::Ru => "ru",
        }
    }
}

/// The machine-readable errors of the control protocol; messages may change, these do not.
#[derive(Clone, Copy, Debug, PartialEq, Eq, Structural)]
pub enum ErrorCode {
    InvalidListenPort,
    InvalidListenHost,
    CredentialsForbiddenWithoutAuthentication,
    CredentialsRequired,
    TimeoutMustBePositiveFinite,
    TimeoutOutOfRange,
    TimeoutBelowMillisecond,
    InvalidConfiguration,
    ServiceNotStartable,
    ServiceStartFailed,
    ServiceNotStoppable,
    ServiceStopFailed,
    OriginForbidden,
    InvalidConfigurationRequest,
    InvalidHttpProxyConfiguration,
    ListenerConfigurationConflict,
    HttpProxyListenerFailed,
    InvalidRecordingRequest,
    InvalidRecordingLimits,
    InvalidRecordingLocation,
    RecordingOperationFailed,
    InvalidSslRequest,
    InvalidSslConfiguration,
    SslOperationFailed,
    InvalidTransactionsQuery,
    TransactionsCollectionChanged,
    TransactionNotFound,
    BodyNotFound,
    InvalidToolRequest,
    ToolNotFound,
    InvalidToolConfiguration,
    ToolOperationFailed,
    BreakpointNotFound,
    BreakpointOperationFailed,
    InvalidExportRequest,
    ExportOperationFailed,
    InvalidRepeatRequest,
    RepeatBodyUnavailable,
    UnsupportedRepeatTransaction,
    RepeatRecordingUnavailable,
    AdvancedRepeatConfirmationRequired,
    InvalidAdvancedRepeatPlan,
    LoadTestNotFound,
    PluginNotFound,
    PluginOperationFailed,
    InvalidProcessSelectionRequest,
    ProcessSelectionOperationFailed,
    ConfigurationPersistenceFailed,
    ClientNodeUnavailable,
    ClientPackageAuthenticationFailed,
    ClientPackageBusy,
    ClientPackageOperationFailed,
    ClientPackageServiceUnavailable,
}

/// The machine-readable name of an error.
pub open spec fn errorName(code: ErrorCode) -> Seq<char> {
    match code {
        ErrorCode::InvalidListenPort => "invalidListenPort"@,
        ErrorCode::InvalidListenHost => "invalidListenHost"@,
        ErrorCode::CredentialsForbiddenWithoutAuthentication => "credentialsForbiddenWithoutAuthentication"@,
        ErrorCode::CredentialsRequired => "credentialsRequired"@,
        ErrorCode::TimeoutMustBePositiveFinite => "timeoutMustBePositiveFinite"@,
        ErrorCode::TimeoutOutOfRange => "timeoutOutOfRange"@,
        ErrorCode::TimeoutBelowMillisecond => "timeoutBelowMillisecond"@,
        ErrorCode::InvalidConfiguration => "invalidConfiguration"@,
        ErrorCode::ServiceNotStartable => "serviceNotStartable"@,
        ErrorCode::ServiceStartFailed => "serviceStartFailed"@,
        ErrorCode::ServiceNotStoppable => "serviceNotStoppable"@,
        ErrorCode::ServiceStopFailed => "serviceStopFailed"@,
        ErrorCode::OriginForbidden => "originForbidden"@,
        ErrorCode::InvalidConfigurationRequest => "invalidConfigurationRequest"@,
        ErrorCode::InvalidHttpProxyConfiguration => "invalidHttpProxyConfiguration"@,
        ErrorCode::ListenerConfigurationConflict => "listenerConfigurationConflict"@,
        ErrorCode::HttpProxyListenerFailed => "httpProxyListenerFailed"@,
        ErrorCode::InvalidRecordingRequest => "invalidRecordingRequest"@,
        ErrorCode::InvalidRecordingLimits => "invalidRecordingLimits"@,
        ErrorCode::InvalidRecordingLocation => "invalidRecordingLocation"@,
        ErrorCode::RecordingOperationFailed => "recordingOperationFailed"@,
        ErrorCode::InvalidSslRequest => "invalidSslRequest"@,
        ErrorCode::InvalidSslConfiguration => "invalidSslConfiguration"@,
        ErrorCode::SslOperationFailed => "sslOperationFailed"@,
        ErrorCode::InvalidTransactionsQuery => "invalidTransactionsQuery"@,
        ErrorCode::TransactionsCollectionChanged => "transactionsCollectionChanged"@,
        ErrorCode::TransactionNotFound => "transactionNotFound"@,
        ErrorCode::BodyNotFound => "bodyNotFound"@,
        ErrorCode::InvalidToolRequest => "invalidToolRequest"@,
        ErrorCode::ToolNotFound => "toolNotFound"@,
        ErrorCode::InvalidToolConfiguration => "invalidToolConfiguration"@,
        ErrorCode::ToolOperationFailed => "toolOperationFailed"@,
        ErrorCode::BreakpointNotFound => "breakpointNotFound"@,
        ErrorCode::BreakpointOperationFailed => "breakpointOperationFailed"@,
        ErrorCode::InvalidExportRequest => "invalidExportRequest"@,
        ErrorCode::ExportOperationFailed => "exportOperationFailed"@,
        ErrorCode::InvalidRepeatRequest => "invalidRepeatRequest"@,
        ErrorCode::RepeatBodyUnavailable => "repeatBodyUnavailable"@,
        ErrorCode::UnsupportedRepeatTransaction => "unsupportedRepeatTransaction"@,
        ErrorCode::RepeatRecordingUnavailable => "repeatRecordingUnavailable"@,
        ErrorCode::AdvancedRepeatConfirmationRequired => "advancedRepeatConfirmationRequired"@,
        ErrorCode::InvalidAdvancedRepeatPlan => "invalidAdvancedRepeatPlan"@,
        ErrorCode::LoadTestNotFound => "loadTestNotFound"@,
        ErrorCode::PluginNotFound => "pluginNotFound"@,
        ErrorCode::PluginOperationFailed => "pluginOperationFailed"@,
        ErrorCode::InvalidProcessSelectionRequest => "invalidProcessSelectionRequest"@,
        ErrorCode::ProcessSelectionOperationFailed => "processSelectionOperationFailed"@,
        ErrorCode::ConfigurationPersistenceFailed => "configurationPersistenceFailed"@,
        ErrorCode::ClientNodeUnavailable => "clientNodeUnavailable"@,
        ErrorCode::ClientPackageAuthenticationFailed => "clientPackageAuthenticationFailed"@,
        ErrorCode::ClientPackageBusy => "clientPackageBusy"@,
        ErrorCode::ClientPackageOperationFailed => "clientPackageOperationFailed"@,
        ErrorCode::ClientPackageServiceUnavailable => "clientPackageServiceUnavailable"@,
    }
}

/// The catalog key of an error.
pub open spec fn errorKey(code: ErrorCode) -> Seq<char> {
    match code {
        ErrorCode::InvalidListenPort => "error.invalidListenPort"@,
        ErrorCode::InvalidListenHost => "error.invalidListenHost"@,
        ErrorCode::CredentialsForbiddenWithoutAuthentication => "error.credentialsForbiddenWithoutAuthentication"@,
        ErrorCode::CredentialsRequired => "error.credentialsRequired"@,
        ErrorCode::TimeoutMustBePositiveFinite => "error.timeoutMustBePositiveFinite"@,
        ErrorCode::TimeoutOutOfRange => "error.timeoutOutOfRange"@,
        ErrorCode::TimeoutBelowMillisecond => "error.timeoutBelowMillisecond"@,
        ErrorCode::InvalidConfiguration => "error.invalidConfiguration"@,
        ErrorCode::ServiceNotStartable => "error.serviceNotStartable"@,
        ErrorCode::ServiceStartFailed => "error.serviceStartFailed"@,
        ErrorCode::ServiceNotStoppable => "error.serviceNotStoppable"@,
        ErrorCode::ServiceStopFailed => "error.serviceStopFailed"@,
        ErrorCode::OriginForbidden => "error.originForbidden"@,
        ErrorCode::InvalidConfigurationRequest => "error.invalidConfigurationRequest"@,
        ErrorCode::InvalidHttpProxyConfiguration => "error.invalidHttpProxyConfiguration"@,
        ErrorCode::ListenerConfigurationConflict => "error.listenerConfigurationConflict"@,
        ErrorCode::HttpProxyListenerFailed => "error.httpProxyListenerFailed"@,
        ErrorCode::InvalidRecordingRequest => "error.invalidRecordingRequest"@,
        ErrorCode::InvalidRecordingLimits => "error.invalidRecordingLimits"@,
        ErrorCode::InvalidRecordingLocation => "error.invalidRecordingLocation"@,
        ErrorCode::RecordingOperationFailed => "error.recordingOperationFailed"@,
        ErrorCode::InvalidSslRequest => "error.invalidSslRequest"@,
        ErrorCode::InvalidSslConfiguration => "error.invalidSslConfiguration"@,
        ErrorCode::SslOperationFailed => "error.sslOperationFailed"@,
        ErrorCode::InvalidTransactionsQuery => "error.invalidTransactionsQuery"@,
        ErrorCode::TransactionsCollectionChanged => "error.transactionsCollectionChanged"@,
        ErrorCode::TransactionNotFound => "error.transactionNotFound"@,
        ErrorCode::BodyNotFound => "error.bodyNotFound"@,
        ErrorCode::InvalidToolRequest => "error.invalidToolRequest"@,
        ErrorCode::ToolNotFound => "error.toolNotFound"@,
        ErrorCode::InvalidToolConfiguration => "error.invalidToolConfiguration"@,
        ErrorCode::ToolOperationFailed => "error.toolOperationFailed"@,
        ErrorCode::BreakpointNotFound => "error.breakpointNotFound"@,
        ErrorCode::BreakpointOperationFailed => "error.breakpointOperationFailed"@,
        ErrorCode::InvalidExportRequest => "error.invalidExportRequest"@,
        ErrorCode::ExportOperationFailed => "error.exportOperationFailed"@,
        ErrorCode::InvalidRepeatRequest => "error.invalidRepeatRequest"@,
        ErrorCode::RepeatBodyUnavailable => "error.repeatBodyUnavailable"@,
        ErrorCode::UnsupportedRepeatTransaction => "error.unsupportedRepeatTransaction"@,
        ErrorCode::RepeatRecordingUnavailable => "error.repeatRecordingUnavailable"@,
        ErrorCode::AdvancedRepeatConfirmationRequired => "error.advancedRepeatConfirmationRequired"@,
        ErrorCode::InvalidAdvancedRepeatPlan => "error.invalidAdvancedRepeatPlan"@,
        ErrorCode::LoadTestNotFound => "error.loadTestNotFound"@,
        ErrorCode::PluginNotFound => "error.pluginNotFound"@,
        ErrorCode::PluginOperationFailed => "error.pluginOperationFailed"@,
        ErrorCode::InvalidProcessSelectionRequest => "error.invalidProcessSelectionRequest"@,
        ErrorCode::ProcessSelectionOperationFailed => "error.processSelectionOperationFailed"@,
        ErrorCode::ConfigurationPersistenceFailed => "error.configurationPersistenceFailed"@,
        ErrorCode::ClientNodeUnavailable => "error.clientNodeUnavailable"@,
        ErrorCode::ClientPackageAuthenticationFailed => "error.clientPackageAuthenticationFailed"@,
        ErrorCode::ClientPackageBusy => "error.clientPackageBusy"@,
        ErrorCode::ClientPackageOperationFailed => "error.clientPackageOperationFailed"@,
        ErrorCode::ClientPackageServiceUnavailable => "error.clientPackageServiceUnavailable"@,
    }
}

impl ErrorCode {
    /// The machine-readable name, which stays as it is whatever the messages say.
    pub fn name(self) -> (result: &'static str)
        ensures
            result@ == errorName(self),
    {
        match self {
            ErrorCode::InvalidListenPort => "invalidListenPort",
            ErrorCode::InvalidListenHost => "invalidListenHost",
            ErrorCode::CredentialsForbiddenWithoutAuthentication => "credentialsForbiddenWithoutAuthentication",
            ErrorCode::CredentialsRequired => "credentialsRequired",
            ErrorCode::TimeoutMustBePositiveFinite => "timeoutMustBePositiveFinite",
            ErrorCode::TimeoutOutOfRange => "timeoutOutOfRange",
            ErrorCode::TimeoutBelowMillisecond => "timeoutBelowMillisecond",
            ErrorCode::InvalidConfiguration => "invalidConfiguration",
            ErrorCode::ServiceNotStartable => "serviceNotStartable",
            ErrorCode::ServiceStartFailed => "serviceStartFailed",
            ErrorCode::ServiceNotStoppable => "serviceNotStoppable",
            ErrorCode::ServiceStopFailed => "serviceStopFailed",
            ErrorCode::OriginForbidden => "originForbidden",
            ErrorCode::InvalidConfigurationRequest => "invalidConfigurationRequest",
            ErrorCode::InvalidHttpProxyConfiguration => "invalidHttpProxyConfiguration",
            ErrorCode::ListenerConfigurationConflict => "listenerConfigurationConflict",
            ErrorCode::HttpProxyListenerFailed => "httpProxyListenerFailed",
            ErrorCode::InvalidRecordingRequest => "invalidRecordingRequest",
            ErrorCode::InvalidRecordingLimits => "invalidRecordingLimits",
            ErrorCode::InvalidRecordingLocation => "invalidRecordingLocation",
            ErrorCode::RecordingOperationFailed => "recordingOperationFailed",
            ErrorCode::InvalidSslRequest => "invalidSslRequest",
            ErrorCode::InvalidSslConfiguration => "invalidSslConfiguration",
            ErrorCode::SslOperationFailed => "sslOperationFailed",
            ErrorCode::InvalidTransactionsQuery => "invalidTransactionsQuery",
            ErrorCode::TransactionsCollectionChanged => "transactionsCollectionChanged",
            ErrorCode::TransactionNotFound => "transactionNotFound",
            ErrorCode::BodyNotFound => "bodyNotFound",
            ErrorCode::InvalidToolRequest => "invalidToolRequest",
            ErrorCode::ToolNotFound => "toolNotFound",
            ErrorCode::InvalidToolConfiguration => "invalidToolConfiguration",
            ErrorCode::ToolOperationFailed => "toolOperationFailed",
            ErrorCode::BreakpointNotFound => "breakpointNotFound",
            ErrorCode::BreakpointOperationFailed => "breakpointOperationFailed",
            ErrorCode::InvalidExportRequest => "invalidExportRequest",
            ErrorCode::ExportOperationFailed => "exportOperationFailed",
            ErrorCode::InvalidRepeatRequest => "invalidRepeatRequest",
            ErrorCode::RepeatBodyUnavailable => "repeatBodyUnavailable",
            ErrorCode::UnsupportedRepeatTransaction => "unsupportedRepeatTransaction",
            ErrorCode::RepeatRecordingUnavailable => "repeatRecordingUnavailable",
            ErrorCode::AdvancedRepeatConfirmationRequired => "advancedRepeatConfirmationRequired",
            ErrorCode::InvalidAdvancedRepeatPlan => "invalidAdvancedRepeatPlan",
            ErrorCode::LoadTestNotFound => "loadTestNotFound",
            ErrorCode::PluginNotFound => "pluginNotFound",
            ErrorCode::PluginOperationFailed => "pluginOperationFailed",
            ErrorCode::InvalidProcessSelectionRequest => "invalidProcessSelectionRequest",
            ErrorCode::ProcessSelectionOperationFailed => "processSelectionOperationFailed",
            ErrorCode::ConfigurationPersistenceFailed => "configurationPersistenceFailed",
            ErrorCode::ClientNodeUnavailable => "clientNodeUnavailable",
            ErrorCode::ClientPackageAuthenticationFailed => "clientPackageAuthenticationFailed",
            ErrorCode::ClientPackageBusy => "clientPackageBusy",
            ErrorCode::ClientPackageOperationFailed => "clientPackageOperationFailed",
            ErrorCode::ClientPackageServiceUnavailable => "clientPackageServiceUnavailable",
        }
    }

    /// The stable key under which every catalog holds the message template.
    pub fn messageKey(self) -> (result: &'static str)
        ensures
            result@ == errorKey(self),
    {
        match self {
            ErrorCode::InvalidListenPort => "error.invalidListenPort",
            ErrorCode::InvalidListenHost => "error.invalidListenHost",
            ErrorCode::CredentialsForbiddenWithoutAuthentication => "error.credentialsForbiddenWithoutAuthentication",
            ErrorCode::CredentialsRequired => "error.credentialsRequired",
            ErrorCode::TimeoutMustBePositiveFinite => "error.timeoutMustBePositiveFinite",
            ErrorCode::TimeoutOutOfRange => "error.timeoutOutOfRange",
            ErrorCode::TimeoutBelowMillisecond => "error.timeoutBelowMillisecond",
            ErrorCode::InvalidConfiguration => "error.invalidConfiguration",
            ErrorCode::ServiceNotStartable => "error.serviceNotStartable",
            ErrorCode::ServiceStartFailed => "error.serviceStartFailed",
            ErrorCode::ServiceNotStoppable => "error.serviceNotStoppable",
            ErrorCode::ServiceStopFailed => "error.serviceStopFailed",
            ErrorCode::OriginForbidden => "error.originForbidden",
            ErrorCode::InvalidConfigurationRequest => "error.invalidConfigurationRequest",
            ErrorCode::InvalidHttpProxyConfiguration => "error.invalidHttpProxyConfiguration",
            ErrorCode::ListenerConfigurationConflict => "error.listenerConfigurationConflict",
            ErrorCode::HttpProxyListenerFailed => "error.httpProxyListenerFailed",
            ErrorCode::InvalidRecordingRequest => "error.invalidRecordingRequest",
            ErrorCode::InvalidRecordingLimits => "error.invalidRecordingLimits",
            ErrorCode::InvalidRecordingLocation => "error.invalidRecordingLocation",
            ErrorCode::RecordingOperationFailed => "error.recordingOperationFailed",
            ErrorCode::InvalidSslRequest => "error.invalidSslRequest",
            ErrorCode::InvalidSslConfiguration => "error.invalidSslConfiguration",
            ErrorCode::SslOperationFailed => "error.sslOperationFailed",
            ErrorCode::InvalidTransactionsQuery => "error.invalidTransactionsQuery",
            ErrorCode::TransactionsCollectionChanged => "error.transactionsCollectionChanged",
            ErrorCode::TransactionNotFound => "error.transactionNotFound",
            ErrorCode::BodyNotFound => "error.bodyNotFound",
            ErrorCode::InvalidToolRequest => "error.invalidToolRequest",
            ErrorCode::ToolNotFound => "error.toolNotFound",
            ErrorCode::InvalidToolConfiguration => "error.invalidToolConfiguration",
            ErrorCode::ToolOperationFailed => "error.toolOperationFailed",
            ErrorCode::BreakpointNotFound => "error.breakpointNotFound",
            ErrorCode::BreakpointOperationFailed => "error.breakpointOperationFailed",
            ErrorCode::InvalidExportRequest => "error.invalidExportRequest",
            ErrorCode::ExportOperationFailed => "error.exportOperationFailed",
            ErrorCode::InvalidRepeatRequest => "error.invalidRepeatRequest",
            ErrorCode::RepeatBodyUnavailable => "error.repeatBodyUnavailable",
            ErrorCode::UnsupportedRepeatTransaction => "error.unsupportedRepeatTransaction",
            ErrorCode::RepeatRecordingUnavailable => "error.repeatRecordingUnavailable",
            ErrorCode::AdvancedRepeatConfirmationRequired => "error.advancedRepeatConfirmationRequired",
            ErrorCode::InvalidAdvancedRepeatPlan => "error.invalidAdvancedRepeatPlan",
            ErrorCode::LoadTestNotFound => "error.loadTestNotFound",
            ErrorCode::PluginNotFound => "error.pluginNotFound",
            ErrorCode::PluginOperationFailed => "error.pluginOperationFailed",
            ErrorCode::InvalidProcessSelectionRequest => "error.invalidProcessSelectionRequest",
            ErrorCode::ProcessSelectionOperationFailed => "error.processSelectionOperationFailed",
            ErrorCode::ConfigurationPersistenceFailed => "error.configurationPersistenceFailed",
            ErrorCode::ClientNodeUnavailable => "error.clientNodeUnavailable",
            ErrorCode::ClientPackageAuthenticationFailed => "error.clientPackageAuthenticationFailed",
            ErrorCode::ClientPackageBusy => "error.clientPackageBusy",
            ErrorCode::ClientPackageOperationFailed => "error.clientPackageOperationFailed",
            ErrorCode::ClientPackageServiceUnavailable => "error.clientPackageServiceUnavailable",
        }
    }
}

/// What tells the name of an error from all others: its length and four of its characters.
spec fn nameMark(name: Seq<char>) -> (nat, char, char, char, char) {
    (name.len(), name[0], name[7], name[name.len() - 7], name[name.len() - 4])
}

spec fn errorMark(code: ErrorCode) -> (nat, char, char, char, char) {
    match code {
        ErrorCode::InvalidListenPort => (17, 'i', 'L', 't', 'P'),
        ErrorCode::InvalidListenHost => (17, 'i', 'L', 't', 'H'),
        ErrorCode::CredentialsForbiddenWithoutAuthentication => (41, 'c', 'i', 'i', 't'),
        ErrorCode::CredentialsRequired => (19, 'c', 'i', 'e', 'i'),
        ErrorCode::TimeoutMustBePositiveFinite => (27, 't', 'M', 'e', 'n'),
        ErrorCode::TimeoutOutOfRange => (17, 't', 'O', 'O', 'a'),
        ErrorCode::TimeoutBelowMillisecond => (23, 't', 'B', 'i', 'c'),
        ErrorCode::InvalidConfiguration => (20, 'i', 'C', 'u', 't'),
        ErrorCode::ServiceNotStartable => (19, 's', 'N', 'a', 'a'),
        ErrorCode::ServiceStartFailed => (18, 's', 'S', 't', 'i'),
        ErrorCode::ServiceNotStoppable => (19, 's', 'N', 'o', 'a'),
        ErrorCode::ServiceStopFailed => (17, 's', 'S', 'p', 'i'),
        ErrorCode::OriginForbidden => (15, 'o', 'o', 'r', 'd'),
        ErrorCode::InvalidConfigurationRequest => (27, 'i', 'C', 'R', 'u'),
        ErrorCode::InvalidHttpProxyConfiguration => (29, 'i', 'H', 'u', 't'),
        ErrorCode::ListenerConfigurationConflict => (29, 'l', 'r', 'o', 'l'),
        ErrorCode::HttpProxyListenerFailed => (23, 'h', 'x', 'r', 'i'),
        ErrorCode::InvalidRecordingRequest => (23, 'i', 'R', 'R', 'u'),
        ErrorCode::InvalidRecordingLimits => (22, 'i', 'R', 'g', 'm'),
        ErrorCode::InvalidRecordingLocation => (24, 'i', 'R', 'o', 't'),
        ErrorCode::RecordingOperationFailed => (24, 'r', 'n', 'n', 'i'),
        ErrorCode::InvalidSslRequest => (17, 'i', 'S', 'R', 'u'),
        ErrorCode::InvalidSslConfiguration => (23, 'i', 'S', 'u', 't'),
        ErrorCode::SslOperationFailed => (18, 's', 'a', 'n', 'i'),
        ErrorCode::InvalidTransactionsQuery => (24, 'i', 'T', 'n', 'u'),
        ErrorCode::TransactionsCollectionChanged => (29, 't', 't', 'C', 'n'),
        ErrorCode::TransactionNotFound => (19, 't', 't', 'o', 'o'),
        ErrorCode::BodyNotFound => (12, 'b', 'F', 'o', 'o'),
        ErrorCode::InvalidToolRequest => (18, 'i', 'T', 'R', 'u'),
        ErrorCode::ToolNotFound => (12, 't', 'F', 'o', 'o'),
        ErrorCode::InvalidToolConfiguration => (24, 'i', 'T', 'u', 't'),
        ErrorCode::ToolOperationFailed => (19, 't', 'r', 'n', 'i'),
        ErrorCode::BreakpointNotFound => (18, 'b', 'i', 'o', 'o'),
        ErrorCode::BreakpointOperationFailed => (25, 'b', 'i', 'n', 'i'),
        ErrorCode::InvalidExportRequest => (20, 'i', 'E', 'R', 'u'),
        ErrorCode::ExportOperationFailed => (21, 'e', 'p', 'n', 'i'),
        ErrorCode::InvalidRepeatRequest => (20, 'i', 'R', 'R', 'u'),
        ErrorCode::RepeatBodyUnavailable => (21, 'r', 'o', 'a', 'a'),
        ErrorCode::UnsupportedRepeatTransaction => (28, 'u', 'r', 's', 't'),
        ErrorCode::RepeatRecordingUnavailable => (26, 'r', 'e', 'a', 'a'),
        ErrorCode::AdvancedRepeatConfirmationRequired => (34, 'a', 'd', 'e', 'i'),
        ErrorCode::InvalidAdvancedRepeatPlan => (25, 'i', 'A', 'e', 'P'),
        ErrorCode::LoadTestNotFound => (16, 'l', 't', 'o', 'o'),
        ErrorCode::PluginNotFound => (14, 'p', 'o', 'o', 'o'),
        ErrorCode::PluginOperationFailed => (21, 'p', 'p', 'n', 'i'),
        ErrorCode::InvalidProcessSelectionRequest => (30, 'i', 'P', 'R', 'u'),
        ErrorCode::ProcessSelectionOperationFailed => (31, 'p', 'S', 'n', 'i'),
        ErrorCode::ConfigurationPersistenceFailed => (30, 'c', 'r', 'e', 'i'),
        ErrorCode::ClientNodeUnavailable => (21, 'c', 'o', 'a', 'a'),
        ErrorCode::ClientPackageAuthenticationFailed => (33, 'c', 'a', 'n', 'i'),
        ErrorCode::ClientPackageBusy => (17, 'c', 'a', 'a', 'B'),
        ErrorCode::ClientPackageOperationFailed => (28, 'c', 'a', 'n', 'i'),
        ErrorCode::ClientPackageServiceUnavailable => (31, 'c', 'a', 'a', 'a'),
    }
}

#[verifier::rlimit(50)]
proof fn lemmaErrorNames(code: ErrorCode)
    ensures
        errorKey(code) == "error."@ + errorName(code),
        nameMark(errorName(code)) == errorMark(code),
{
    reveal_strlit("error.");
    match code {
        ErrorCode::InvalidListenPort => {
            reveal_strlit("error.invalidListenPort");
            reveal_strlit("invalidListenPort");
        },
        ErrorCode::InvalidListenHost => {
            reveal_strlit("error.invalidListenHost");
            reveal_strlit("invalidListenHost");
        },
        ErrorCode::CredentialsForbiddenWithoutAuthentication => {
            reveal_strlit("error.credentialsForbiddenWithoutAuthentication");
            reveal_strlit("credentialsForbiddenWithoutAuthentication");
        },
        ErrorCode::CredentialsRequired => {
            reveal_strlit("error.credentialsRequired");
            reveal_strlit("credentialsRequired");
        },
        ErrorCode::TimeoutMustBePositiveFinite => {
            reveal_strlit("error.timeoutMustBePositiveFinite");
            reveal_strlit("timeoutMustBePositiveFinite");
        },
        ErrorCode::TimeoutOutOfRange => {
            reveal_strlit("error.timeoutOutOfRange");
            reveal_strlit("timeoutOutOfRange");
        },
        ErrorCode::TimeoutBelowMillisecond => {
            reveal_strlit("error.timeoutBelowMillisecond");
            reveal_strlit("timeoutBelowMillisecond");
        },
        ErrorCode::InvalidConfiguration => {
            reveal_strlit("error.invalidConfiguration");
            reveal_strlit("invalidConfiguration");
        },
        ErrorCode::ServiceNotStartable => {
            reveal_strlit("error.serviceNotStartable");
            reveal_strlit("serviceNotStartable");
        },
        ErrorCode::ServiceStartFailed => {
            reveal_strlit("error.serviceStartFailed");
            reveal_strlit("serviceStartFailed");
        },
        ErrorCode::ServiceNotStoppable => {
            reveal_strlit("error.serviceNotStoppable");
            reveal_strlit("serviceNotStoppable");
        },
        ErrorCode::ServiceStopFailed => {
            reveal_strlit("error.serviceStopFailed");
            reveal_strlit("serviceStopFailed");
        },
        ErrorCode::OriginForbidden => {
            reveal_strlit("error.originForbidden");
            reveal_strlit("originForbidden");
        },
        ErrorCode::InvalidConfigurationRequest => {
            reveal_strlit("error.invalidConfigurationRequest");
            reveal_strlit("invalidConfigurationRequest");
        },
        ErrorCode::InvalidHttpProxyConfiguration => {
            reveal_strlit("error.invalidHttpProxyConfiguration");
            reveal_strlit("invalidHttpProxyConfiguration");
        },
        ErrorCode::ListenerConfigurationConflict => {
            reveal_strlit("error.listenerConfigurationConflict");
            reveal_strlit("listenerConfigurationConflict");
        },
        ErrorCode::HttpProxyListenerFailed => {
            reveal_strlit("error.httpProxyListenerFailed");
            reveal_strlit("httpProxyListenerFailed");
        },
        ErrorCode::InvalidRecordingRequest => {
            reveal_strlit("error.invalidRecordingRequest");
            reveal_strlit("invalidRecordingRequest");
        },
        ErrorCode::InvalidRecordingLimits => {
            reveal_strlit("error.invalidRecordingLimits");
            reveal_strlit("invalidRecordingLimits");
        },
        ErrorCode::InvalidRecordingLocation => {
            reveal_strlit("error.invalidRecordingLocation");
            reveal_strlit("invalidRecordingLocation");
        },
        ErrorCode::RecordingOperationFailed => {
            reveal_strlit("error.recordingOperationFailed");
            reveal_strlit("recordingOperationFailed");
        },
        ErrorCode::InvalidSslRequest => {
            reveal_strlit("error.invalidSslRequest");
            reveal_strlit("invalidSslRequest");
        },
        ErrorCode::InvalidSslConfiguration => {
            reveal_strlit("error.invalidSslConfiguration");
            reveal_strlit("invalidSslConfiguration");
        },
        ErrorCode::SslOperationFailed => {
            reveal_strlit("error.sslOperationFailed");
            reveal_strlit("sslOperationFailed");
        },
        ErrorCode::InvalidTransactionsQuery => {
            reveal_strlit("error.invalidTransactionsQuery");
            reveal_strlit("invalidTransactionsQuery");
        },
        ErrorCode::TransactionsCollectionChanged => {
            reveal_strlit("error.transactionsCollectionChanged");
            reveal_strlit("transactionsCollectionChanged");
        },
        ErrorCode::TransactionNotFound => {
            reveal_strlit("error.transactionNotFound");
            reveal_strlit("transactionNotFound");
        },
        ErrorCode::BodyNotFound => {
            reveal_strlit("error.bodyNotFound");
            reveal_strlit("bodyNotFound");
        },
        ErrorCode::InvalidToolRequest => {
            reveal_strlit("error.invalidToolRequest");
            reveal_strlit("invalidToolRequest");
        },
        ErrorCode::ToolNotFound => {
            reveal_strlit("error.toolNotFound");
            reveal_strlit("toolNotFound");
        },
        ErrorCode::InvalidToolConfiguration => {
            reveal_strlit("error.invalidToolConfiguration");
            reveal_strlit("invalidToolConfiguration");
        },
        ErrorCode::ToolOperationFailed => {
            reveal_strlit("error.toolOperationFailed");
            reveal_strlit("toolOperationFailed");
        },
        ErrorCode::BreakpointNotFound => {
            reveal_strlit("error.breakpointNotFound");
            reveal_strlit("breakpointNotFound");
        },
        ErrorCode::BreakpointOperationFailed => {
            reveal_strlit("error.breakpointOperationFailed");
            reveal_strlit("breakpointOperationFailed");
        },
        ErrorCode::InvalidExportRequest => {
            reveal_strlit("error.invalidExportRequest");
            reveal_strlit("invalidExportRequest");
        },
        ErrorCode::ExportOperationFailed => {
            reveal_strlit("error.exportOperationFailed");
            reveal_strlit("exportOperationFailed");
        },
        ErrorCode::InvalidRepeatRequest => {
            reveal_strlit("error.invalidRepeatRequest");
            reveal_strlit("invalidRepeatRequest");
        },
        ErrorCode::RepeatBodyUnavailable => {
            reveal_strlit("error.repeatBodyUnavailable");
            reveal_strlit("repeatBodyUnavailable");
        },
        ErrorCode::UnsupportedRepeatTransaction => {
            reveal_strlit("error.unsupportedRepeatTransaction");
            reveal_strlit("unsupportedRepeatTransaction");
        },
        ErrorCode::RepeatRecordingUnavailable => {
            reveal_strlit("error.repeatRecordingUnavailable");
            reveal_strlit("repeatRecordingUnavailable");
        },
        ErrorCode::AdvancedRepeatConfirmationRequired => {
            reveal_strlit("error.advancedRepeatConfirmationRequired");
            reveal_strlit("advancedRepeatConfirmationRequired");
        },
        ErrorCode::InvalidAdvancedRepeatPlan => {
            reveal_strlit("error.invalidAdvancedRepeatPlan");
            reveal_strlit("invalidAdvancedRepeatPlan");
        },
        ErrorCode::LoadTestNotFound => {
            reveal_strlit("error.loadTestNotFound");
            reveal_strlit("loadTestNotFound");
        },
        ErrorCode::PluginNotFound => {
            reveal_strlit("error.pluginNotFound");
            reveal_strlit("pluginNotFound");
        },
        ErrorCode::PluginOperationFailed => {
            reveal_strlit("error.pluginOperationFailed");
            reveal_strlit("pluginOperationFailed");
        },
        ErrorCode::InvalidProcessSelectionRequest => {
            reveal_strlit("error.invalidProcessSelectionRequest");
            reveal_strlit("invalidProcessSelectionRequest");
        },
        ErrorCode::ProcessSelectionOperationFailed => {
            reveal_strlit("error.processSelectionOperationFailed");
            reveal_strlit("processSelectionOperationFailed");
        },
        ErrorCode::ConfigurationPersistenceFailed => {
            reveal_strlit("error.configurationPersistenceFailed");
            reveal_strlit("configurationPersistenceFailed");
        },
        ErrorCode::ClientNodeUnavailable => {
            reveal_strlit("error.clientNodeUnavailable");
            reveal_strlit("clientNodeUnavailable");
        },
        ErrorCode::ClientPackageAuthenticationFailed => {
            reveal_strlit("error.clientPackageAuthenticationFailed");
            reveal_strlit("clientPackageAuthenticationFailed");
        },
        ErrorCode::ClientPackageBusy => {
            reveal_strlit("error.clientPackageBusy");
            reveal_strlit("clientPackageBusy");
        },
        ErrorCode::ClientPackageOperationFailed => {
            reveal_strlit("error.clientPackageOperationFailed");
            reveal_strlit("clientPackageOperationFailed");
        },
        ErrorCode::ClientPackageServiceUnavailable => {
            reveal_strlit("error.clientPackageServiceUnavailable");
            reveal_strlit("clientPackageServiceUnavailable");
        },
    }
    assert(errorKey(code) =~= "error."@ + errorName(code));
}

/// The key of an error is its name behind a fixed prefix, and no two errors share a name or a key.
pub proof fn lawErrorKeysDiffer(first: ErrorCode, second: ErrorCode)
    ensures
        errorKey(first) == "error."@ + errorName(first),
        first != second ==> errorName(first) != errorName(second),
        first != second ==> errorKey(first) != errorKey(second),
{
    lemmaErrorNames(first);
    lemmaErrorNames(second);
    if errorName(first) == errorName(second) {
        assert(errorMark(first) == errorMark(second));
    }
    if errorKey(first) == errorKey(second) {
        let length = "error."@.len() as int;
        assert(errorKey(first).skip(length) == errorName(first));
        assert(errorKey(second).skip(length) == errorName(second));
    }
}

// ---------------------------------------------------------------------------
// Message parameters
// ---------------------------------------------------------------------------

/// One named value that a message template may refer to.
#[derive(Debug)]
pub struct MessageParam {
    pub name: String,
    pub value: String,
}

impl View for MessageParam {
    type V = (Seq<char>, Seq<char>);

    open spec fn view(&self) -> (Seq<char>, Seq<char>) {
        (self.name@, self.value@)
    }
}

/// The named values of a message, in the order of their names.
#[derive(Debug)]
pub struct MessageParams {
    pub entries: Vec<MessageParam>,
}

impl View for MessageParams {
    type V = Seq<(Seq<char>, Seq<char>)>;

    open spec fn view(&self) -> Seq<(Seq<char>, Seq<char>)> {
        self.entries@.map_values(|entry: MessageParam| entry@)
    }
}

/// Puts a named value at its place in the order of names; an equal name is overwritten.
pub open spec fn paramInserted(
    params: Seq<(Seq<char>, Seq<char>)>,
    name: Seq<char>,
    value: Seq<char>,
) -> Seq<(Seq<char>, Seq<char>)>
    decreases params.len(),
{
    if params.len() == 0 || textLess(name, params[0].0) {
        seq![(name, value)] + params
    } else if params[0].0 == name {
        seq![(name, value)] + params.drop_first()
    } else {
        seq![params[0]] + paramInserted(params.drop_first(), name, value)
    }
}

/// Whether the names stand in strictly ascending order.
pub open spec fn paramsSorted(params: Seq<(Seq<char>, Seq<char>)>) -> bool {
    forall|i: int, j: int|
        0 <= i < j < params.len() ==> textLess(#[trigger] params[i].0, #[trigger] params[j].0)
}

/// The value of a name.
pub open spec fn paramValue(params: Seq<(Seq<char>, Seq<char>)>, name: Seq<char>) -> Option<
    Seq<char>,
>
    decreases params.len(),
{
    if params.len() == 0 {
        None
    } else if params[0].0 == name {
        Some(params[0].1)
    } else {
        paramValue(params.drop_first(), name)
    }
}

/// Inserting keeps the names sorted, gives the inserted name its value and leaves every other
/// name alone.
pub proof fn lawParamInsert(
    params: Seq<(Seq<char>, Seq<char>)>,
    name: Seq<char>,
    value: Seq<char>,
    other: Seq<char>,
)
    requires
        paramsSorted(params),
    ensures
        paramsSorted(paramInserted(params, name, value)),
        paramValue(paramInserted(params, name, value), name) == Some(value),
        other != name ==> paramValue(paramInserted(params, name, value), other) == paramValue(
            params,
            other,
        ),
    decreases params.len(),
{
    let result = paramInserted(params, name, value);
    if params.len() == 0 {
        assert(result == seq![(name, value)]);
        assert(result.drop_first() == params);
    } else if textLess(name, params[0].0) {
        assert(result.drop_first() == params);
        assert forall|i: int, j: int| 0 <= i < j < result.len() implies textLess(
            #[trigger] result[i].0,
            #[trigger] result[j].0,
        ) by {
            assert(result[j] == params[j - 1]);
            if i == 0 {
                if j > 1 {
                    lemmaTextOrderTransitive(name, params[0].0, params[j - 1].0);
                }
            } else {
                assert(result[i] == params[i - 1]);
            }
        }
    } else if params[0].0 == name {
        assert(result.drop_first() == params.drop_first());
        assert forall|i: int, j: int| 0 <= i < j < result.len() implies textLess(
            #[trigger] result[i].0,
            #[trigger] result[j].0,
        ) by {
            assert(result[j] == params[j]);
            assert(result[i].0 == params[i].0);
        }
    } else {
        let rest = params.drop_first();
        let inner = paramInserted(rest, name, value);
        assert(paramsSorted(rest)) by {
            assert forall|i: int, j: int| 0 <= i < j < rest.len() implies textLess(
                #[trigger] rest[i].0,
                #[trigger] rest[j].0,
            ) by {
                assert(rest[i] == params[i + 1] && rest[j] == params[j + 1]);
            }
        }
        lawParamInsert(rest, name, value, other);
        lemmaTextOrderTotal(name, params[0].0);
        lemmaInsertedNames(rest, name, value);
        assert(result.drop_first() == inner);
        assert forall|i: int, j: int| 0 <= i < j < result.len() implies textLess(
            #[trigger] result[i].0,
            #[trigger] result[j].0,
        ) by {
            assert(result[j] == inner[j - 1]);
            if i > 0 {
                assert(result[i] == inner[i - 1]);
            } else if inner[j - 1].0 != name {
                let k = choose|k: int| 0 <= k < rest.len() && rest[k].0 == inner[j - 1].0;
                assert(rest[k] == params[k + 1]);
            }
        }
    }
}

/// Every name after an insertion is the inserted one or was there before.
proof fn lemmaInsertedNames(
    params: Seq<(Seq<char>, Seq<char>)>,
    name: Seq<char>,
    value: Seq<char>,
)
    ensures
        forall|i: int|
            0 <= i < paramInserted(params, name, value).len() ==> {
                ||| (#[trigger] paramInserted(params, name, value)[i]).0 == name
                ||| exists|k: int|
                    0 <= k < params.len() && params[k].0 == paramInserted(params, name, value)[i].0
            },
    decreases params.len(),
{
    let result = paramInserted(params, name, value);
    if params.len() == 0 || textLess(name, params[0].0) {
        assert forall|i: int| 0 <= i < result.len() implies {
            ||| (#[trigger] result[i]).0 == name
            ||| exists|k: int| 0 <= k < params.len() && params[k].0 == result[i].0
        } by {
            if i > 0 {
                assert(result[i] == params[i - 1]);
            }
        }
    } else if params[0].0 == name {
        assert forall|i: int| 0 <= i < result.len() implies {
            ||| (#[trigger] result[i]).0 == name
            ||| exists|k: int| 0 <= k < params.len() && params[k].0 == result[i].0
        } by {
            if i > 0 {
                assert(result[i] == params[i]);
            }
        }
    } else {
        let rest = params.drop_first();
        lemmaInsertedNames(rest, name, value);
        let inner = paramInserted(rest, name, value);
        assert forall|i: int| 0 <= i < result.len() implies {
            ||| (#[trigger] result[i]).0 == name
            ||| exists|k: int| 0 <= k < params.len() && params[k].0 == result[i].0
        } by {
            if i == 0 {
                assert(params[0].0 == result[0].0);
            } else {
                assert(result[i] == inner[i - 1]);
                if inner[i - 1].0 != name {
                    let k = choose|k: int| 0 <= k < rest.len() && rest[k].0 == inner[i - 1].0;
                    assert(params[k + 1].0 == result[i].0);
                }
            }
        }
    }
}

impl MessageParams {
    /// No named values.
    pub fn new() -> (result: MessageParams)
        ensures
            result@ == Seq::<(Seq<char>, Seq<char>)>::empty(),
    {
        let result = MessageParams { entries: Vec::new() };
        assert(result@ == Seq::<(Seq<char>, Seq<char>)>::empty());
        result
    }

    /// Puts a named value at its place in the order of names; an equal name is overwritten.
    pub fn insert(&mut self, name: &str, value: String)
        ensures
            final(self)@ == paramInserted(old(self)@, name@, value@),
    {
        let ghost before = self@;
        let mut i: usize = 0;
        assert(before.skip(0) == before);
        assert(before.take(0) + paramInserted(before.skip(0), name@, value@) == paramInserted(
            before,
            name@,
            value@,
        ));
        while i < self.entries.len() && !lessText(name, self.entries[i].name.as_str())
            && !equalText(name, self.entries[i].name.as_str())
            invariant
                i <= self.entries.len(),
                before == self@,
                before == old(self)@,
                before.take(i as int) + paramInserted(before.skip(i as int), name@, value@)
                    == paramInserted(before, name@, value@),
            decreases self.entries.len() - i,
        {
            let ghost rest = before.skip(i as int);
            assert(rest.drop_first() == before.skip(i + 1));
            assert(rest[0] == before[i as int]);
            assert(before.take(i as int) + (seq![rest[0]] + paramInserted(
                before.skip(i + 1),
                name@,
                value@,
            )) == before.take(i + 1) + paramInserted(before.skip(i + 1), name@, value@));
            i += 1;
        }
        let ghost rest = before.skip(i as int);
        if i < self.entries.len() && equalText(name, self.entries[i].name.as_str()) {
            proof {
                lemmaTextOrderTotal(name@, self.entries@[i as int].name@);
            }
            assert(rest[0] == before[i as int]);
            self.entries.set(i, MessageParam { name: copyText(name), value });
            assert(self@ == before.take(i as int) + (seq![(name@, value@)] + rest.drop_first()));
        } else {
            if i < self.entries.len() {
                assert(rest[0] == before[i as int]);
            }
            self.entries.insert(i, MessageParam { name: copyText(name), value });
            assert(self@ == before.take(i as int) + (seq![(name@, value@)] + rest));
        }
    }
}

// ---------------------------------------------------------------------------
// Catalogs
// ---------------------------------------------------------------------------

/// One message template under its stable key.
#[derive(Debug)]
pub struct CatalogEntry {
    pub key: String,
    pub template: String,
}

/// The message templates of one language.
#[derive(Debug)]
pub struct LocaleCatalog {
    pub locale: Locale,
    pub entries: Vec<CatalogEntry>,
}

/// The template under a key.
pub open spec fn templateIn(entries: Seq<CatalogEntry>, key: Seq<char>) -> Option<Seq<char>>
    decreases entries.len(),
{
    if entries.len() == 0 {
        None
    } else if entries[0].key@ == key {
        Some(entries[0].template@)
    } else {
        templateIn(entries.drop_first(), key)
    }
}

/// The template under a key in a language's catalog.
pub open spec fn templateFor(
    catalogs: Seq<LocaleCatalog>,
    locale: Locale,
    key: Seq<char>,
) -> Option<Seq<char>>
    decreases catalogs.len(),
{
    if catalogs.len() == 0 {
        None
    } else if catalogs[0].locale == locale {
        templateIn(catalogs[0].entries@, key)
    } else {
        templateFor(catalogs.drop_first(), locale, key)
    }
}

/// The template of an error: the language's own, else the English one.
pub open spec fn errorTemplate(
    catalogs: Seq<LocaleCatalog>,
    code: ErrorCode,
    locale: Locale,
) -> Option<Seq<char>> {
    let own = templateFor(catalogs, locale, errorKey(code));
    if own is Some {
        own
    } else {
        templateFor(catalogs, Locale::En, errorKey(code))
    }
}

/// Puts the named values into a template, in the order of their names.
pub open spec fn interpolated(template: Seq<char>, params: Seq<(Seq<char>, Seq<char>)>) -> Seq<char>
    decreases params.len(),
{
    if params.len() == 0 {
        template
    } else {
        replaced(
            interpolated(template, params.drop_last()),
            "{"@ + params.last().0 + "}"@,
            params.last().1,
        )
    }
}

/// Finds the template under a key.
fn findTemplate(entries: &Vec<CatalogEntry>, key: &str) -> (result: Option<String>)
    ensures
        crate::text::optionalView(result) == templateIn(entries@, key@),
{
    let mut i: usize = 0;
    assert(entries@.skip(0) == entries@);
    while i < entries.len()
        invariant
            i <= entries.len(),
            templateIn(entries@, key@) == templateIn(entries@.skip(i as int), key@),
        decreases entries.len() - i,
    {
        assert(entries@.skip(i as int).drop_first() == entries@.skip(i + 1));
        if equalText(entries[i].key.as_str(), key) {
            return Some(copyText(entries[i].template.as_str()));
        }
        i += 1;
    }
    None
}

/// Finds the template under a key in a language's catalog.
fn findLocaleTemplate(catalogs: &Vec<LocaleCatalog>, locale: Locale, key: &str) -> (result: Option<
    String,
>)
    ensures
        crate::text::optionalView(result) == templateFor(catalogs@, locale, key@),
{
    let mut i: usize = 0;
    assert(catalogs@.skip(0) == catalogs@);
    while i < catalogs.len()
        invariant
            i <= catalogs.len(),
            templateFor(catalogs@, locale, key@) == templateFor(
                catalogs@.skip(i as int),
                locale,
                key@,
            ),
        decreases catalogs.len() - i,
    {
        assert(catalogs@.skip(i as int).drop_first() == catalogs@.skip(i + 1));
        if catalogs[i].locale == locale {
            return findTemplate(&catalogs[i].entries, key);
        }
        i += 1;
    }
    None
}

/// Finds the template of an error: the language's own, else the English one.
pub fn findErrorTemplate(catalogs: &Vec<LocaleCatalog>, code: ErrorCode, locale: Locale) -> (result:
    Option<String>)
    ensures
        crate::text::optionalView(result) == errorTemplate(catalogs@, code, locale),
{
    let key = code.messageKey();
    match findLocaleTemplate(catalogs, locale, key) {
        Some(template) => Some(template),
        None => findLocaleTemplate(catalogs, Locale::En, key),
    }
}

/// Renders an error in a language. A value only ever replaces the placeholder of its own name.
pub fn localizeError(
    catalogs: &Vec<LocaleCatalog>,
    code: ErrorCode,
    locale: Locale,
    params: &MessageParams,
) -> (result: String)
    requires
        errorTemplate(catalogs@, code, locale) is Some,
    ensures
        result@ == interpolated(errorTemplate(catalogs@, code, locale)->0, params@),
{
    let mut message = match findErrorTemplate(catalogs, code, locale) {
        Some(template) => template,
        None => String::new(),
    };
    let ghost template = message@;
    let mut i: usize = 0;
    while i < params.entries.len()
        invariant
            i <= params.entries.len(),
            message@ == interpolated(template, params@.take(i as int)),
        decreases params.entries.len() - i,
    {
        let placeholder = concatThree("{", params.entries[i].name.as_str(), "}");
        proof {
            reveal_strlit("{");
        }
        assert(params@.take(i + 1).drop_last() == params@.take(i as int));
        message = replaceText(
            message.as_str(),
            placeholder.as_str(),
            params.entries[i].value.as_str(),
        );
        i += 1;
    }
    assert(params@.take(i as int) == params@);
    message
}

/// Whether every error has an English template, so that every error can be rendered in every
/// language.
pub open spec fn catalogComplete(catalogs: Seq<LocaleCatalog>) -> bool {
    forall|code: ErrorCode| #[trigger] templateFor(catalogs, Locale::En, errorKey(code)) is Some
}

fn hasEnglish(catalogs: &Vec<LocaleCatalog>, code: ErrorCode) -> (result: bool)
    ensures
        result == (templateFor(catalogs@, Locale::En, errorKey(code)) is Some),
{
    findLocaleTemplate(catalogs, Locale::En, code.messageKey()).is_some()
}

/// Whether every error has an English template.
#[verifier::rlimit(30)]
pub fn isCatalogComplete(catalogs: &Vec<LocaleCatalog>) -> (result: bool)
    ensures
        result == catalogComplete(catalogs@),
{
    hasEnglish(catalogs, ErrorCode::InvalidListenPort)
        && hasEnglish(catalogs, ErrorCode::InvalidListenHost)
        && hasEnglish(catalogs, ErrorCode::CredentialsForbiddenWithoutAuthentication)
        && hasEnglish(catalogs, ErrorCode::CredentialsRequired)
        && hasEnglish(catalogs, ErrorCode::TimeoutMustBePositiveFinite)
        && hasEnglish(catalogs, ErrorCode::TimeoutOutOfRange)
        && hasEnglish(catalogs, ErrorCode::TimeoutBelowMillisecond)
        && hasEnglish(catalogs, ErrorCode::InvalidConfiguration)
        && hasEnglish(catalogs, ErrorCode::ServiceNotStartable)
        && hasEnglish(catalogs, ErrorCode::ServiceStartFailed)
        && hasEnglish(catalogs, ErrorCode::ServiceNotStoppable)
        && hasEnglish(catalogs, ErrorCode::ServiceStopFailed)
        && hasEnglish(catalogs, ErrorCode::OriginForbidden)
        && hasEnglish(catalogs, ErrorCode::InvalidConfigurationRequest)
        && hasEnglish(catalogs, ErrorCode::InvalidHttpProxyConfiguration)
        && hasEnglish(catalogs, ErrorCode::ListenerConfigurationConflict)
        && hasEnglish(catalogs, ErrorCode::HttpProxyListenerFailed)
        && hasEnglish(catalogs, ErrorCode::InvalidRecordingRequest)
        && hasEnglish(catalogs, ErrorCode::InvalidRecordingLimits)
        && hasEnglish(catalogs, ErrorCode::InvalidRecordingLocation)
        && hasEnglish(catalogs, ErrorCode::RecordingOperationFailed)
        && hasEnglish(catalogs, ErrorCode::InvalidSslRequest)
        && hasEnglish(catalogs, ErrorCode::InvalidSslConfiguration)
        && hasEnglish(catalogs, ErrorCode::SslOperationFailed)
        && hasEnglish(catalogs, ErrorCode::InvalidTransactionsQuery)
        && hasEnglish(catalogs, ErrorCode::TransactionsCollectionChanged)
        && hasEnglish(catalogs, ErrorCode::TransactionNotFound)
        && hasEnglish(catalogs, ErrorCode::BodyNotFound)
        && hasEnglish(catalogs, ErrorCode::InvalidToolRequest)
        && hasEnglish(catalogs, ErrorCode::ToolNotFound)
        && hasEnglish(catalogs, ErrorCode::InvalidToolConfiguration)
        && hasEnglish(catalogs, ErrorCode::ToolOperationFailed)
        && hasEnglish(catalogs, ErrorCode::BreakpointNotFound)
        && hasEnglish(catalogs, ErrorCode::BreakpointOperationFailed)
        && hasEnglish(catalogs, ErrorCode::InvalidExportRequest)
        && hasEnglish(catalogs, ErrorCode::ExportOperationFailed)
        && hasEnglish(catalogs, ErrorCode::InvalidRepeatRequest)
        && hasEnglish(catalogs, ErrorCode::RepeatBodyUnavailable)
        && hasEnglish(catalogs, ErrorCode::UnsupportedRepeatTransaction)
        && hasEnglish(catalogs, ErrorCode::RepeatRecordingUnavailable)
        && hasEnglish(catalogs, ErrorCode::AdvancedRepeatConfirmationRequired)
        && hasEnglish(catalogs, ErrorCode::InvalidAdvancedRepeatPlan)
        && hasEnglish(catalogs, ErrorCode::LoadTestNotFound)
        && hasEnglish(catalogs, ErrorCode::PluginNotFound)
        && hasEnglish(catalogs, ErrorCode::PluginOperationFailed)
        && hasEnglish(catalogs, ErrorCode::InvalidProcessSelectionRequest)
        && hasEnglish(catalogs, ErrorCode::ProcessSelectionOperationFailed)
        && hasEnglish(catalogs, ErrorCode::ConfigurationPersistenceFailed)
        && hasEnglish(catalogs, ErrorCode::ClientNodeUnavailable)
        && hasEnglish(catalogs, ErrorCode::ClientPackageAuthenticationFailed)
        && hasEnglish(catalogs, ErrorCode::ClientPackageBusy)
        && hasEnglish(catalogs, ErrorCode::ClientPackageOperationFailed)
        && hasEnglish(catalogs, ErrorCode::ClientPackageServiceUnavailable)
}

/// With complete catalogs every error has a template in every language.
pub proof fn lawCompleteCatalogRendersEveryError(
    catalogs: Seq<LocaleCatalog>,
    code: ErrorCode,
    locale: Locale,
)
    requires
        catalogComplete(catalogs),
    ensures
        errorTemplate(catalogs, code, locale) is Some,
{
    assert(templateFor(catalogs, Locale::En, errorKey(code)) is Some);
}

/// A template without an opening brace is rendered as it stands, whatever the values are.
pub proof fn lawPlainTemplateUnchanged(template: Seq<char>, params: Seq<(Seq<char>, Seq<char>)>)
    requires
        !template.contains('{'),
    ensures
        interpolated(template, params) == template,
    decreases params.len(),
{
    if params.len() > 0 {
        lawPlainTemplateUnchanged(template, params.drop_last());
        let pattern = "{"@ + params.last().0 + "}"@;
        reveal_strlit("{");
        assert(pattern[0] == '{');
        lemmaReplaceAbsent(template, pattern, params.last().1);
    }
}

/// Replacing a pattern whose first character does not occur changes nothing.
proof fn lemmaReplaceAbsent(text: Seq<char>, pattern: Seq<char>, value: Seq<char>)
    requires
        pattern.len() > 0,
        !text.contains(pattern[0]),
    ensures
        replaced(text, pattern, value) == text,
    decreases text.len(),
{
    if text.len() >= pattern.len() {
        assert(text.contains(text[0]));
        assert(text.take(pattern.len() as int)[0] == text[0]);
        assert(!startsWith(text, pattern));
        let rest = text.drop_first();
        assert(!rest.contains(pattern[0])) by {
            if rest.contains(pattern[0]) {
                let k = choose|k: int| 0 <= k < rest.len() && rest[k] == pattern[0];
                assert(text[k + 1] == pattern[0]);
            }
        }
        lemmaReplaceAbsent(rest, pattern, value);
        assert(seq![text[0]] + rest == text);
    }
}

/// The string-to-string object that a JSON text writes, by ascending key; `None` where the text is
/// not such an object.
pub uninterp spec fn jsonStringObject(source: Seq<char>) -> Option<Seq<(Seq<char>, Seq<char>)>>;

/// The key and the template of each entry.
pub open spec fn catalogViews(entries: Seq<CatalogEntry>) -> Seq<(Seq<char>, Seq<char>)> {
    entries.map_values(|entry: CatalogEntry| (entry.key@, entry.template@))
}

/// Reads a JSON object whose values are all strings.
///
/// Trusted: `serde_json::from_str` into a map from strings to strings. The result depends on the
/// text alone; the map is handed out in the order of its keys.
#[verifier::external_body]
fn readStringObject(source: &str) -> (result: Option<Vec<CatalogEntry>>)
    ensures
        match result {
            Some(entries) => jsonStringObject(source@) == Some(catalogViews(entries@)),
            None => jsonStringObject(source@) is None,
        },
{
    let object = serde_json::from_str::<std::collections::BTreeMap<String, String>>(source).ok()?;
    Some(object.into_iter().map(|(key, template)| CatalogEntry { key, template }).collect())
}

/// A text without the byte order marks at its start.
pub open spec fn withoutByteOrderMark(text: Seq<char>) -> Seq<char>
    decreases text.len(),
{
    if text.len() > 0 && text[0] == '\u{feff}' {
        withoutByteOrderMark(text.drop_first())
    } else {
        text
    }
}

/// Reads a language's catalog from its JSON text; byte order marks at the start are skipped.
pub fn loadCatalog(locale: Locale, source: &str) -> (result: Option<LocaleCatalog>)
    ensures
        match result {
            Some(catalog) => catalog.locale == locale && jsonStringObject(
                withoutByteOrderMark(source@),
            ) == Some(catalogViews(catalog.entries@)),
            None => jsonStringObject(withoutByteOrderMark(source@)) is None,
        },
{
    let chars = charsOf(source);
    let mut from: usize = 0;
    assert(source@.skip(0) == source@);
    while from < chars.len() && chars[from] == '\u{feff}'
        invariant
            from <= chars.len(),
            chars@ == source@,
            withoutByteOrderMark(source@) == withoutByteOrderMark(source@.skip(from as int)),
        decreases chars.len() - from,
    {
        assert(source@.skip(from as int).drop_first() == source@.skip(from + 1));
        from += 1;
    }
    let body = textOfRange(&chars, from, chars.len());
    assert(body@ == source@.skip(from as int));
    match readStringObject(body.as_str()) {
        Some(entries) => Some(LocaleCatalog { locale, entries }),
        None => None,
    }
}

// ---------------------------------------------------------------------------
// Language tags
// ---------------------------------------------------------------------------

/// A hyphen for an underscore; any other character as it is.
pub open spec fn hyphenFor(c: char) -> char {
    if c == '_' {
        '-'
    } else {
        c
    }
}

/// A text with hyphens for underscores.
pub open spec fn hyphenated(text: Seq<char>) -> Seq<char> {
    text.map_values(|c: char| hyphenFor(c))
}

/// A tag trimmed, with hyphens for underscores, in ASCII lower case.
pub open spec fn normalizedTag(tag: Seq<char>) -> Seq<char> {
    asciiLowered(
        hyphenated(trimmed(tag)),
    )
}

/// A tag is a subtag sequence itself or continues it after a hyphen.
pub open spec fn inFamily(tag: Seq<char>, family: Seq<char>) -> bool {
    tag == family || startsWith(tag, family + "-"@)
}

/// The language whose single subtag this is.
pub open spec fn primaryLocale(subtag: Seq<char>) -> Option<Locale> {
    if subtag == "en"@ {
        Some(Locale::En)
    } else if subtag == "ja"@ {
        Some(Locale::Ja)
    } else if subtag == "ko"@ {
        Some(Locale::Ko)
    } else if subtag == "es"@ {
        Some(Locale::Es)
    } else if subtag == "fr"@ {
        Some(Locale::Fr)
    } else if subtag == "de"@ {
        Some(Locale::De)
    } else if subtag == "pt"@ {
        Some(Locale::PtBr)
    } else if subtag == "ru"@ {
        Some(Locale::Ru)
    } else {
        None
    }
}

/// The language that a tag asks for.
pub open spec fn localeOfTag(tag: Seq<char>) -> Option<Locale> {
    let normalized = normalizedTag(tag);
    if inFamily(normalized, "zh-hant"@) || inFamily(normalized, "zh-tw"@) || inFamily(
        normalized,
        "zh-hk"@,
    ) || inFamily(normalized, "zh-mo"@) {
        Some(Locale::ZhHant)
    } else if normalized == "zh"@ || inFamily(normalized, "zh-hans"@) || inFamily(
        normalized,
        "zh-cn"@,
    ) || inFamily(normalized, "zh-sg"@) {
        Some(Locale::ZhHans)
    } else {
        primaryLocale(splitOn(normalized, '-')[0])
    }
}

/// Changing characters one by one commutes with trimming, where no white space comes or goes.
proof fn lemmaTrimmedMapped(text: Seq<char>, change: spec_fn(char) -> char)
    requires
        forall|c: char| isWhitespace(#[trigger] change(c)) == isWhitespace(c),
    ensures
        trimmed(text.map_values(change)) == trimmed(text).map_values(change),
{
    lemmaTrimmedStartMapped(text, change);
    lemmaTrimmedEndMapped(trimmedStart(text), change);
}

proof fn lemmaTrimmedStartMapped(text: Seq<char>, change: spec_fn(char) -> char)
    requires
        forall|c: char| isWhitespace(#[trigger] change(c)) == isWhitespace(c),
    ensures
        trimmedStart(text.map_values(change)) == trimmedStart(text).map_values(change),
    decreases text.len(),
{
    if text.len() > 0 && isWhitespace(text[0]) {
        assert(isWhitespace(change(text[0])));
        assert(text.map_values(change).drop_first() == text.drop_first().map_values(change));
        lemmaTrimmedStartMapped(text.drop_first(), change);
    } else if text.len() > 0 {
        assert(!isWhitespace(change(text[0])));
    }
}

proof fn lemmaTrimmedEndMapped(text: Seq<char>, change: spec_fn(char) -> char)
    requires
        forall|c: char| isWhitespace(#[trigger] change(c)) == isWhitespace(c),
    ensures
        trimmedEnd(text.map_values(change)) == trimmedEnd(text).map_values(change),
    decreases text.len(),
{
    if text.len() > 0 && isWhitespace(text.last()) {
        assert(isWhitespace(change(text.last())));
        assert(text.map_values(change).drop_last() == text.drop_last().map_values(change));
        lemmaTrimmedEndMapped(text.drop_last(), change);
    } else if text.len() > 0 {
        assert(!isWhitespace(change(text.last())));
    }
}

/// How a tag is written does not matter: neither the case of its letters, nor underscores in place of
/// hyphens, nor blanks around it change the language that it asks for.
pub proof fn lawTagSpellingDoesNotMatter(first: Seq<char>, second: Seq<char>)
    ensures
        asciiLowered(first) == asciiLowered(second) ==> localeOfTag(first) == localeOfTag(second),
        hyphenated(first) == hyphenated(second) ==> localeOfTag(first) == localeOfTag(second),
        trimmed(first) == trimmed(second) ==> localeOfTag(first) == localeOfTag(second),
{
    let lower = |c: char| asciiLower(c);
    let hyphen = |c: char| hyphenFor(c);
    assert forall|c: char| isWhitespace(#[trigger] lower(c)) == isWhitespace(c) by {}
    assert forall|c: char| isWhitespace(#[trigger] hyphen(c)) == isWhitespace(c) by {}
    assert forall|tag: Seq<char>| #[trigger] normalizedTag(tag) == hyphenated(
        trimmed(asciiLowered(tag)),
    ) by {
        lemmaTrimmedMapped(tag, lower);
        assert(asciiLowered(tag) == tag.map_values(lower));
        assert(asciiLowered(hyphenated(trimmed(tag))) =~= hyphenated(
            trimmed(tag).map_values(lower),
        ));
    }
    assert forall|tag: Seq<char>| #[trigger] normalizedTag(tag) == asciiLowered(
        trimmed(hyphenated(tag)),
    ) by {
        lemmaTrimmedMapped(tag, hyphen);
        assert(hyphenated(tag) == tag.map_values(hyphen));
        assert(hyphenated(trimmed(tag)) == trimmed(tag).map_values(hyphen));
    }
    assert(normalizedTag(first) == hyphenated(trimmed(asciiLowered(first))));
    assert(normalizedTag(second) == hyphenated(trimmed(asciiLowered(second))));
}

fn replaceUnderscores(source: &str) -> (result: String)
    ensures
        result@ == hyphenated(source@),
{
    let chars = charsOf(source);
    let mut result = String::new();
    let mut i: usize = 0;
    while i < chars.len()
        invariant
            i <= chars.len(),
            chars@ == source@,
            result@ == hyphenated(source@.take(i as int)),
        decreases chars.len() - i,
    {
        let c = if chars[i] == '_' {
            '-'
        } else {
            chars[i]
        };
        pushChar(&mut result, c);
        i += 1;
        assert(result@ == hyphenated(source@.take(i as int)));
    }
    assert(source@.take(i as int) == source@);
    result
}

fn isInFamily(tag: &str, family: &str) -> (result: bool)
    ensures
        result == inFamily(tag@, family@),
{
    if equalText(tag, family) {
        return true;
    }
    let prefix = crate::text::concatText(family, "-");
    startsWithText(tag, prefix.as_str())
}

fn primaryLocaleOf(subtag: &str) -> (result: Option<Locale>)
    ensures
        result == primaryLocale(subtag@),
{
    if equalText(subtag, "en") {
        Some(Locale::En)
    } else if equalText(subtag, "ja") {
        Some(Locale::Ja)
    } else if equalText(subtag, "ko") {
        Some(Locale::Ko)
    } else if equalText(subtag, "es") {
        Some(Locale::Es)
    } else if equalText(subtag, "fr") {
        Some(Locale::Fr)
    } else if equalText(subtag, "de") {
        Some(Locale::De)
    } else if equalText(subtag, "pt") {
        Some(Locale::PtBr)
    } else if equalText(subtag, "ru") {
        Some(Locale::Ru)
    } else {
        None
    }
}

/// Maps one BCP 47 tag to a language; an unknown tag gives `None`, so that negotiation goes on.
pub fn resolveLocaleTag(languageTag: &str) -> (result: Option<Locale>)
    ensures
        result == localeOfTag(languageTag@),
{
    let trimmedTag = trimText(languageTag);
    let hyphenated = replaceUnderscores(trimmedTag.as_str());
    let normalized = asciiLowerText(hyphenated.as_str());
    let tag = normalized.as_str();
    if isInFamily(tag, "zh-hant") || isInFamily(tag, "zh-tw") || isInFamily(tag, "zh-hk")
        || isInFamily(tag, "zh-mo") {
        return Some(Locale::ZhHant);
    }
    if equalText(tag, "zh") || isInFamily(tag, "zh-hans") || isInFamily(tag, "zh-cn") || isInFamily(
        tag,
        "zh-sg",
    ) {
        return Some(Locale::ZhHans);
    }
    let parts = splitText(tag, '-');
    assert(views(parts@)[0] == parts@[0]@);
    primaryLocaleOf(parts[0].as_str())
}

// ---------------------------------------------------------------------------
// Negotiation
// ---------------------------------------------------------------------------

/// What precedes the first separator; the whole text where there is none.
pub open spec fn beforeSeparator(text: Seq<char>, separator: char) -> Seq<char> {
    match splitOnce(text, separator) {
        Some(parts) => parts.0,
        None => text,
    }
}

/// What follows the first separator; nothing where there is none.
pub open spec fn afterSeparator(text: Seq<char>, separator: char) -> Seq<char> {
    match splitOnce(text, separator) {
        Some(parts) => parts.1,
        None => Seq::empty(),
    }
}

/// The two sides of the first separator; without one the second side is empty.
fn splitAround(source: &str, separator: char) -> (result: (String, String))
    ensures
        result.0@ == beforeSeparator(source@, separator),
        result.1@ == afterSeparator(source@, separator),
{
    match splitOnceText(source, separator) {
        Some(parts) => parts,
        None => (copyText(source), String::new()),
    }
}

/// A quality value in thousandths: `0` or `1` with at most three decimals, no more than one.
pub open spec fn qualityOf(raw: Seq<char>) -> Option<int> {
    let whole = beforeSeparator(trimmed(raw), '.');
    let fraction = afterSeparator(trimmed(raw), '.');
    if fraction.len() > 3 || exists|i: int| 0 <= i < fraction.len() && !isDigit(#[trigger] fraction[i]) {
        None
    } else if whole == "0"@ {
        Some(decimalValue(fraction) * fractionScale(fraction.len()))
    } else if whole == "1"@ && decimalValue(fraction) == 0 {
        Some(1000)
    } else {
        None
    }
}

/// The thousandths that one unit of a fraction's last decimal is worth.
pub open spec fn fractionScale(decimals: nat) -> int {
    if decimals == 0 {
        1000
    } else if decimals == 1 {
        100
    } else if decimals == 2 {
        10
    } else {
        1
    }
}

/// Reads a quality value in thousandths.
pub fn parseQualityValue(rawValue: &str) -> (result: Option<u16>)
    ensures
        match result {
            Some(quality) => qualityOf(rawValue@) == Some(quality as int),
            None => qualityOf(rawValue@) is None,
        },
        result is Some ==> result->0 <= 1000,
{
    let value = trimText(rawValue);
    let (whole, fraction) = splitAround(value.as_str(), '.');
    let digits = charsOf(fraction.as_str());
    if digits.len() > 3 {
        return None;
    }
    let mut thousandths: u16 = 0;
    let mut i: usize = 0;
    while i < digits.len()
        invariant
            i <= digits.len() <= 3,
            digits@ == fraction@,
            fraction@ == afterSeparator(trimmed(rawValue@), '.'),
            forall|k: int| 0 <= k < i ==> isDigit(#[trigger] digits@[k]),
            thousandths == decimalValue(fraction@.take(i as int)),
            i == 0 ==> thousandths == 0,
            i == 1 ==> thousandths < 10,
            i == 2 ==> thousandths < 100,
            i == 3 ==> thousandths < 1000,
        decreases digits.len() - i,
    {
        let c = digits[i];
        if !('0' <= c && c <= '9') {
            assert(!isDigit(fraction@[i as int]));
            return None;
        }
        assert(fraction@.take(i + 1).drop_last() == fraction@.take(i as int));
        thousandths = thousandths * 10 + (c as u32 - 48) as u16;
        i += 1;
    }
    assert(fraction@.take(i as int) == fraction@);
    if equalText(whole.as_str(), "0") {
        if digits.len() == 0 {
            Some(0)
        } else if digits.len() == 1 {
            Some(thousandths * 100)
        } else if digits.len() == 2 {
            Some(thousandths * 10)
        } else {
            Some(thousandths)
        }
    } else if equalText(whole.as_str(), "1") && thousandths == 0 {
        Some(1000)
    } else {
        None
    }
}

/// The quality that a list of parameters gives. A parameter `q` without a value, or a second
/// quality, makes the candidate invalid.
pub open spec fn parametersQuality(
    parameters: Seq<Seq<char>>,
    seen: bool,
    quality: Option<int>,
) -> Option<int>
    decreases parameters.len(),
{
    if parameters.len() == 0 {
        quality
    } else {
        let parameter = trimmed(parameters[0]);
        let rest = parameters.drop_first();
        match splitOnce(parameter, '=') {
            None => if asciiLowered(parameter) == asciiLowered("q"@) {
                None
            } else {
                parametersQuality(rest, seen, quality)
            },
            Some(parts) => if asciiLowered(trimmed(parts.0)) != asciiLowered("q"@) {
                parametersQuality(rest, seen, quality)
            } else if seen {
                None
            } else {
                parametersQuality(rest, true, qualityOf(parts.1))
            },
        }
    }
}

fn readParametersQuality(parts: &Vec<String>) -> (result: Option<u16>)
    requires
        parts@.len() >= 1,
    ensures
        match result {
            Some(quality) => parametersQuality(views(parts@).drop_first(), false, Some(1000int))
                == Some(quality as int),
            None => parametersQuality(views(parts@).drop_first(), false, Some(1000int)) is None,
        },
{
    let mut quality: Option<u16> = Some(1000);
    let mut seen = false;
    let mut i: usize = 1;
    let ghost all = parametersQuality(views(parts@).drop_first(), false, Some(1000int));
    assert(views(parts@).drop_first() == views(parts@).skip(1));
    while i < parts.len()
        invariant
            1 <= i <= parts.len(),
            all == parametersQuality(
                views(parts@).skip(i as int),
                seen,
                match quality {
                    Some(q) => Some(q as int),
                    None => None,
                },
            ),
            all == parametersQuality(views(parts@).drop_first(), false, Some(1000int)),
        decreases parts.len() - i,
    {
        assert(views(parts@).skip(i as int).drop_first() == views(parts@).skip(i + 1));
        assert(views(parts@).skip(i as int)[0] == parts@[i as int]@);
        let parameter = trimText(parts[i].as_str());
        match splitOnceText(parameter.as_str(), '=') {
            None => {
                if equalIgnoringAsciiCase(parameter.as_str(), "q") {
                    return None;
                }
            },
            Some((name, value)) => {
                let trimmedName = trimText(name.as_str());
                if equalIgnoringAsciiCase(trimmedName.as_str(), "q") {
                    if seen {
                        return None;
                    }
                    seen = true;
                    quality = parseQualityValue(value.as_str());
                }
            },
        }
        i += 1;
    }
    quality
}

/// The tag and the positive quality of one `Accept-Language` item.
pub open spec fn candidateOf(item: Seq<char>) -> Option<(Seq<char>, int)> {
    let parts = splitOn(trimmed(item), ';');
    let tag = trimmed(parts[0]);
    let quality = parametersQuality(parts.drop_first(), false, Some(1000int));
    if tag.len() > 0 && quality is Some && quality->0 > 0 {
        Some((tag, quality->0))
    } else {
        None
    }
}

/// Whether an item names a language of the protocol with a positive quality.
pub open spec fn isOffer(item: Seq<char>) -> bool {
    candidateOf(item) is Some && localeOfTag(candidateOf(item)->Some_0.0) is Some
}

/// The items of all readable header values, in order.
pub open spec fn languageItems(headers: Seq<Option<Seq<char>>>) -> Seq<Seq<char>>
    decreases headers.len(),
{
    if headers.len() == 0 {
        Seq::empty()
    } else {
        languageItems(headers.drop_last()) + match headers.last() {
            Some(header) => splitOn(header, ','),
            None => Seq::empty(),
        }
    }
}

/// The offer with the highest quality; among equals the first.
pub open spec fn isBestOffer(items: Seq<Seq<char>>, i: int) -> bool {
    &&& 0 <= i < items.len()
    &&& isOffer(items[i])
    &&& forall|j: int|
        0 <= j < items.len() && isOffer(#[trigger] items[j]) ==> candidateOf(items[j])->Some_0.1
            < candidateOf(items[i])->Some_0.1 || (candidateOf(items[j])->Some_0.1 == candidateOf(items[i])->Some_0.1
            && i <= j)
}

/// The language negotiated from a list of items.
pub open spec fn negotiates(items: Seq<Seq<char>>, locale: Option<Locale>) -> bool {
    match locale {
        Some(chosen) => exists|i: int|
            #[trigger] isBestOffer(items, i) && localeOfTag(candidateOf(items[i])->Some_0.0) == Some(
                chosen,
            ),
        None => forall|i: int| 0 <= i < items.len() ==> !isOffer(#[trigger] items[i]),
    }
}

fn readCandidate(item: &str) -> (result: Option<(String, u16)>)
    ensures
        match result {
            Some(candidate) => candidateOf(item@) == Some((candidate.0@, candidate.1 as int)),
            None => candidateOf(item@) is None,
        },
{
    let trimmedItem = trimText(item);
    let parts = splitText(trimmedItem.as_str(), ';');
    assert(views(parts@)[0] == parts@[0]@);
    let tag = trimText(parts[0].as_str());
    if tag.as_str().is_empty() {
        return None;
    }
    match readParametersQuality(&parts) {
        Some(quality) => if quality > 0 {
            Some((tag, quality))
        } else {
            None
        },
        None => None,
    }
}

fn collectLanguageItems(headers: &Vec<Option<String>>) -> (result: Vec<String>)
    ensures
        views(result@) == languageItems(readings(headers@)),
{
    let ghost all = readings(headers@);
    let mut items: Vec<String> = Vec::new();
    let mut i: usize = 0;
    assert(views(items@) == languageItems(all.take(0)));
    while i < headers.len()
        invariant
            i <= headers.len(),
            all == readings(headers@),
            views(items@) == languageItems(all.take(i as int)),
        decreases headers.len() - i,
    {
        assert(all.take(i + 1).drop_last() == all.take(i as int));
        assert(all.take(i + 1).last() == optionalView(headers@[i as int]));
        let ghost before = views(items@);
        match &headers[i] {
            Some(header) => {
                let mut pieces = splitText(header.as_str(), ',');
                let ghost added = views(pieces@);
                items.append(&mut pieces);
                assert(views(items@) == before + added);
            },
            None => {
                assert(before + Seq::<Seq<char>>::empty() == before);
            },
        }
        i += 1;
    }
    assert(all.take(i as int) == all);
    items
}

/// Negotiates a language from the `Accept-Language` fields of a request.
pub fn resolveAcceptLanguage(headers: &http::HeaderMap<http::HeaderValue>) -> (result: Option<
    Locale,
>)
    ensures
        negotiates(
            languageItems(
                textsNamed(headerFields(*headers), asciiLowered("accept-language"@)),
            ),
            result,
        ),
{
    proof {
        reveal_strlit("accept-language");
    }
    negotiateLanguage(&headerTexts(headers, "accept-language"))
}

/// Negotiates a language from `Accept-Language` values; unreadable values count as absent. Invalid
/// items and items of quality zero are ignored, and equal qualities keep the client's order.
pub fn negotiateLanguage(headers: &Vec<Option<String>>) -> (result: Option<Locale>)
    ensures
        negotiates(languageItems(readings(headers@)), result),
{
    let items = collectLanguageItems(headers);
    let ghost all = views(items@);
    let mut best: Option<(Locale, u16)> = None;
    let ghost mut bestAt: int = 0;
    let mut i: usize = 0;
    while i < items.len()
        invariant
            i <= items.len(),
            all == views(items@),
            match best {
                Some(offer) => {
                    &&& isBestOffer(all.take(i as int), bestAt)
                    &&& localeOfTag(candidateOf(all[bestAt])->Some_0.0) == Some(offer.0)
                    &&& candidateOf(all[bestAt])->Some_0.1 == offer.1
                },
                None => forall|j: int| 0 <= j < i ==> !isOffer(#[trigger] all[j]),
            },
        decreases items.len() - i,
    {
        let ghost before = all.take(i as int);
        let ghost after = all.take(i + 1);
        assert(all[i as int] == items@[i as int]@);
        let ghost formerBest = best;
        match readCandidate(items[i].as_str()) {
            Some((tag, quality)) => match resolveLocaleTag(tag.as_str()) {
                Some(locale) => {
                    let better = match best {
                        Some(offer) => quality > offer.1,
                        None => true,
                    };
                    if better {
                        best = Some((locale, quality));
                        proof {
                            assert forall|j: int|
                                0 <= j < after.len() && isOffer(
                                    #[trigger] after[j],
                                ) implies candidateOf(after[j])->Some_0.1 < quality || (candidateOf(
                                after[j],
                            )->Some_0.1 == quality && i <= j) by {
                                if j < i {
                                    assert(after[j] == before[j]);
                                    assert(isOffer(before[j]));
                                }
                            }
                            bestAt = i as int;
                        }
                    }
                },
                None => {},
            },
            None => {},
        }
        proof {
            if best is Some && bestAt < i {
                assert(after[bestAt] == before[bestAt]);
                assert forall|j: int| 0 <= j < after.len() && isOffer(#[trigger] after[j]) implies
                candidateOf(after[j])->Some_0.1 < candidateOf(after[bestAt])->Some_0.1 || (candidateOf(after[j])->Some_0.1
                    == candidateOf(after[bestAt])->Some_0.1 && bestAt <= j) by {
                    if j < i {
                        assert(after[j] == before[j]);
                        assert(isOffer(before[j]));
                    }
                }
                assert(isBestOffer(after, bestAt));
            }
        }
        i += 1;
    }
    assert(all.take(i as int) == all);
    match best {
        Some(offer) => Some(offer.0),
        None => None,
    }
}

/// The language that the first resolvable `locale` parameter of a query asks for.
pub open spec fn queryLocale(pairs: Seq<Seq<char>>) -> Option<Locale>
    decreases pairs.len(),
{
    if pairs.len() == 0 {
        None
    } else {
        let name = beforeSeparator(pairs[0], '=');
        let value = afterSeparator(pairs[0], '=');
        if name == "locale"@ && localeOfTag(value) is Some {
            localeOfTag(value)
        } else {
            queryLocale(pairs.drop_first())
        }
    }
}

fn resolveQueryLocale(query: &str) -> (result: Option<Locale>)
    ensures
        result == queryLocale(splitOn(query@, '&')),
{
    let pairs = splitText(query, '&');
    let ghost all = views(pairs@);
    let mut i: usize = 0;
    assert(all.skip(0) == all);
    while i < pairs.len()
        invariant
            i <= pairs.len(),
            all == views(pairs@),
            all == splitOn(query@, '&'),
            queryLocale(all) == queryLocale(all.skip(i as int)),
        decreases pairs.len() - i,
    {
        assert(all.skip(i as int).drop_first() == all.skip(i + 1));
        assert(all.skip(i as int)[0] == pairs@[i as int]@);
        let (name, value) = splitAround(pairs[i].as_str(), '=');
        if equalText(name.as_str(), "locale") {
            let locale = resolveLocaleTag(value.as_str());
            if locale.is_some() {
                return locale;
            }
        }
        i += 1;
    }
    None
}

/// Whether `locale` is the language of a request: the query's, else the negotiated one, else
/// English.
pub open spec fn isRequestLocale(
    query: Option<Seq<char>>,
    items: Seq<Seq<char>>,
    locale: Locale,
) -> bool {
    let asked = match query {
        Some(text) => queryLocale(splitOn(text, '&')),
        None => None,
    };
    match asked {
        Some(chosen) => locale == chosen,
        None => negotiates(items, Some(locale)) || (negotiates(items, None) && locale == Locale::En),
    }
}

/// The language of a request, by fixed priority: query, `Accept-Language`, English.
pub fn resolveRequestLocale(query: Option<&str>, headers: &http::HeaderMap<http::HeaderValue>) -> (result:
    Locale)
    ensures
        isRequestLocale(
            match query {
                Some(text) => Some(text@),
                None => None,
            },
            languageItems(
                textsNamed(headerFields(*headers), asciiLowered("accept-language"@)),
            ),
            result,
        ),
{
    let asked = match query {
        Some(text) => resolveQueryLocale(text),
        None => None,
    };
    match asked {
        Some(locale) => locale,
        None => match resolveAcceptLanguage(headers) {
            Some(locale) => locale,
            None => Locale::En,
        },
    }
}

/// The language that a request asked for, settled once before its body is read.
#[derive(Clone, Copy, Debug)]
pub struct RequestLocale(pub Locale);

/// At most one language is negotiated from the same items.
pub proof fn lawNegotiationIsUnique(
    items: Seq<Seq<char>>,
    first: Option<Locale>,
    second: Option<Locale>,
)
    requires
        negotiates(items, first),
        negotiates(items, second),
    ensures
        first == second,
{
    if first is Some {
        let i = choose|i: int|
            #[trigger] isBestOffer(items, i) && localeOfTag(candidateOf(items[i])->Some_0.0) == first;
        assert(isOffer(items[i]));
        if second is Some {
            let j = choose|j: int|
                #[trigger] isBestOffer(items, j) && localeOfTag(candidateOf(items[j])->Some_0.0)
                    == second;
            assert(isOffer(items[j]));
        }
    } else if second is Some {
        let j = choose|j: int|
            #[trigger] isBestOffer(items, j) && localeOfTag(candidateOf(items[j])->Some_0.0) == second;
        assert(isOffer(items[j]));
    }
}

/// The code of every language resolves back to that language.
pub proof fn lawLocaleCodeResolves(locale: Locale)
    ensures
        localeOfTag(localeCode(locale)) == Some(locale),
{
    reveal_strlit("en");
    reveal_strlit("zh-Hans");
    reveal_strlit("zh-Hant");
    reveal_strlit("ja");
    reveal_strlit("ko");
    reveal_strlit("es");
    reveal_strlit("fr");
    reveal_strlit("de");
    reveal_strlit("pt-BR");
    reveal_strlit("pt");
    reveal_strlit("ru");
    reveal_strlit("zh");
    reveal_strlit("zh-hans");
    reveal_strlit("zh-hant");
    reveal_strlit("zh-tw");
    reveal_strlit("zh-hk");
    reveal_strlit("zh-mo");
    reveal_strlit("zh-cn");
    reveal_strlit("zh-sg");
    reveal_strlit("-");
    let code = localeCode(locale);
    assert(trimmed(code) == code);
    let normalized = normalizedTag(code);
    match locale {
        Locale::ZhHans => {
            assert(normalized == "zh-hans"@);
            assert(normalized[6] == 's' && "zh-hant"@[6] == 't');
            assert(normalized.take(6)[3] == 'h' && ("zh-tw"@ + "-"@)[3] == 't');
            assert(normalized.take(6)[4] == 'a' && ("zh-hk"@ + "-"@)[4] == 'k');
            assert(normalized.take(6)[3] == 'h' && ("zh-mo"@ + "-"@)[3] == 'm');
        },
        Locale::ZhHant => {
            assert(normalized == "zh-hant"@);
        },
        Locale::PtBr => {
            assert(normalized =~= seq!['p', 't', '-', 'b', 'r']);
            assert(normalized[0] == 'p');
            reveal_with_fuel(splitOn, 7);
            assert(splitOn(normalized, '-')[0] =~= "pt"@);
            assert(primaryLocale("pt"@) == Some(Locale::PtBr)) by {
                assert("pt"@[0] == 'p');
            }
        },
        _ => {
            assert(normalized =~= code);
            reveal_with_fuel(splitOn, 4);
            assert(splitOn(normalized, '-')[0] =~= code);
            assert(code[0] != 'z');
            assert(code.len() == 2);
        },
    }
}

/// Whether a tag is written with small letters, digits and hyphens alone.
spec fn isPlainTag(tag: Seq<char>) -> bool {
    forall|i: int|
        0 <= i < tag.len() ==> 'a' <= #[trigger] tag[i] <= 'z' || '0' <= tag[i] <= '9' || tag[i] == '-'
}

proof fn lemmaPlainTag(tag: Seq<char>)
    requires
        isPlainTag(tag),
    ensures
        normalizedTag(tag) == tag,
{
    if tag.len() > 0 {
        assert(!isWhitespace(tag[0]));
        assert(!isWhitespace(tag.last()));
    }
    assert(trimmed(tag) == tag);
    assert(hyphenated(tag) =~= tag);
    assert(asciiLowered(tag) =~= tag);
}

proof fn lemmaPrimary(language: Seq<char>, rest: Seq<char>)
    requires
        language.len() == 2,
        language[0] != '-' && language[1] != '-',
        language[0] != 'z',
        isPlainTag(language + rest),
        rest.len() > 0 ==> rest[0] == '-',
    ensures
        localeOfTag(language + rest) == primaryLocale(language),
{
    let tag = language + rest;
    lemmaPlainTag(tag);
    reveal_strlit("zh");
    reveal_strlit("zh-hans");
    reveal_strlit("zh-hant");
    reveal_strlit("zh-tw");
    reveal_strlit("zh-hk");
    reveal_strlit("zh-mo");
    reveal_strlit("zh-cn");
    reveal_strlit("zh-sg");
    assert(tag[0] != 'z');
    assert forall|family: Seq<char>| family.len() > 0 && family[0] == 'z' implies !(#[trigger] inFamily(
        tag,
        family,
    )) by {
        if startsWith(tag, family + "-"@) {
            assert(tag.take((family + "-"@).len() as int)[0] == (family + "-"@)[0]);
        }
    }
    lawFirstPieceEndsAtSeparator(tag, '-');
    lemmaIndexOf(tag, '-');
    assert(tag[0] == language[0] && tag[1] == language[1]);
    if rest.len() > 0 {
        assert(tag[2] == '-');
    }
    assert(splitOn(tag, '-')[0] =~= language);
}

/// A tag of one of the languages, with whatever is said of it behind a hyphen, is that language. Portuguese is
/// always the Brazilian one.
pub proof fn lawLanguageIsReadFromItsTag(rest: Seq<char>)
    requires
        rest.len() > 0 ==> rest[0] == '-',
        forall|i: int|
            0 <= i < rest.len() ==> 'a' <= #[trigger] rest[i] <= 'z' || '0' <= rest[i] <= '9' || rest[i]
                == '-',
    ensures
        localeOfTag("en"@ + rest) == Some(Locale::En),
        localeOfTag("ja"@ + rest) == Some(Locale::Ja),
        localeOfTag("ko"@ + rest) == Some(Locale::Ko),
        localeOfTag("es"@ + rest) == Some(Locale::Es),
        localeOfTag("fr"@ + rest) == Some(Locale::Fr),
        localeOfTag("de"@ + rest) == Some(Locale::De),
        localeOfTag("pt"@ + rest) == Some(Locale::PtBr),
        localeOfTag("ru"@ + rest) == Some(Locale::Ru),
{
    reveal_strlit("en");
    reveal_strlit("ja");
    reveal_strlit("ko");
    reveal_strlit("es");
    reveal_strlit("fr");
    reveal_strlit("de");
    reveal_strlit("pt");
    reveal_strlit("ru");
    lemmaPrimary("en"@, rest);
    lemmaPrimary("ja"@, rest);
    lemmaPrimary("ko"@, rest);
    lemmaPrimary("es"@, rest);
    lemmaPrimary("fr"@, rest);
    lemmaPrimary("de"@, rest);
    lemmaPrimary("pt"@, rest);
    lemmaPrimary("ru"@, rest);
    assert("ja"@[0] != "en"@[0] && "ko"@[0] != "en"@[0] && "fr"@[0] != "en"@[0]);
    assert("es"@[1] != "en"@[1] && "de"@[0] != "en"@[0] && "pt"@[0] != "en"@[0] && "ru"@[0] != "en"@[0]);
    assert("ko"@[0] != "ja"@[0] && "fr"@[0] != "ja"@[0] && "es"@[0] != "ja"@[0] && "de"@[0] != "ja"@[0]);
    assert("pt"@[0] != "ja"@[0] && "ru"@[0] != "ja"@[0]);
    assert("fr"@[0] != "ko"@[0] && "es"@[0] != "ko"@[0] && "de"@[0] != "ko"@[0] && "pt"@[0] != "ko"@[0]);
    assert("ru"@[0] != "ko"@[0]);
    assert("fr"@[0] != "es"@[0] && "de"@[0] != "es"@[0] && "pt"@[0] != "es"@[0] && "ru"@[0] != "es"@[0]);
    assert("de"@[0] != "fr"@[0] && "pt"@[0] != "fr"@[0] && "ru"@[0] != "fr"@[0]);
    assert("pt"@[0] != "de"@[0] && "ru"@[0] != "de"@[0] && "ru"@[0] != "pt"@[0]);
}

proof fn lemmaFamily(family: Seq<char>, rest: Seq<char>)
    requires
        isPlainTag(family + rest),
        rest.len() > 0 ==> rest[0] == '-',
    ensures
        normalizedTag(family + rest) == family + rest,
        inFamily(family + rest, family),
{
    lemmaPlainTag(family + rest);
    reveal_strlit("-");
    if rest.len() == 0 {
        assert(family + rest =~= family);
    } else {
        assert((family + rest).take(family.len() as int + 1) =~= family + "-"@);
    }
}

proof fn lemmaOtherFamily(tag: Seq<char>, family: Seq<char>, at: int)
    requires
        0 <= at < family.len(),
        at < tag.len(),
        tag[at] != family[at],
    ensures
        !inFamily(tag, family),
{
    if startsWith(tag, family + "-"@) {
        assert(tag.take((family + "-"@).len() as int)[at] == (family + "-"@)[at]);
    }
}

/// Chinese is written in the traditional way where the tag says so or names Taiwan, Hong Kong or Macau.
pub proof fn lawTraditionalChinese(rest: Seq<char>)
    requires
        rest.len() > 0 ==> rest[0] == '-',
        forall|i: int|
            0 <= i < rest.len() ==> 'a' <= #[trigger] rest[i] <= 'z' || '0' <= rest[i] <= '9' || rest[i]
                == '-',
    ensures
        localeOfTag("zh-hant"@ + rest) == Some(Locale::ZhHant),
        localeOfTag("zh-tw"@ + rest) == Some(Locale::ZhHant),
        localeOfTag("zh-hk"@ + rest) == Some(Locale::ZhHant),
        localeOfTag("zh-mo"@ + rest) == Some(Locale::ZhHant),
{
    reveal_strlit("zh-hant");
    reveal_strlit("zh-tw");
    reveal_strlit("zh-hk");
    reveal_strlit("zh-mo");
    lemmaFamily("zh-hant"@, rest);
    lemmaFamily("zh-tw"@, rest);
    lemmaFamily("zh-hk"@, rest);
    lemmaFamily("zh-mo"@, rest);
}

/// It is written in the simplified way where the tag says so, names the mainland or Singapore, or says nothing.
pub proof fn lawSimplifiedChinese(rest: Seq<char>)
    requires
        rest.len() > 0 ==> rest[0] == '-',
        forall|i: int|
            0 <= i < rest.len() ==> 'a' <= #[trigger] rest[i] <= 'z' || '0' <= rest[i] <= '9' || rest[i]
                == '-',
    ensures
        localeOfTag("zh"@) == Some(Locale::ZhHans),
        localeOfTag("zh-hans"@ + rest) == Some(Locale::ZhHans),
        localeOfTag("zh-cn"@ + rest) == Some(Locale::ZhHans),
        localeOfTag("zh-sg"@ + rest) == Some(Locale::ZhHans),
{
    reveal_strlit("zh");
    reveal_strlit("zh-hans");
    reveal_strlit("zh-hant");
    reveal_strlit("zh-tw");
    reveal_strlit("zh-hk");
    reveal_strlit("zh-mo");
    reveal_strlit("zh-cn");
    reveal_strlit("zh-sg");
    reveal_strlit("-");
    lemmaPlainTag("zh"@);
    lemmaFamily("zh-hans"@, rest);
    lemmaFamily("zh-cn"@, rest);
    lemmaFamily("zh-sg"@, rest);
    let hans = "zh-hans"@ + rest;
    lemmaOtherFamily(hans, "zh-hant"@, 6);
    lemmaOtherFamily(hans, "zh-tw"@, 3);
    lemmaOtherFamily(hans, "zh-hk"@, 4);
    lemmaOtherFamily(hans, "zh-mo"@, 3);
    let mainland = "zh-cn"@ + rest;
    lemmaOtherFamily(mainland, "zh-hant"@, 3);
    lemmaOtherFamily(mainland, "zh-tw"@, 3);
    lemmaOtherFamily(mainland, "zh-hk"@, 3);
    lemmaOtherFamily(mainland, "zh-mo"@, 3);
    let singapore = "zh-sg"@ + rest;
    lemmaOtherFamily(singapore, "zh-hant"@, 3);
    lemmaOtherFamily(singapore, "zh-tw"@, 3);
    lemmaOtherFamily(singapore, "zh-hk"@, 3);
    lemmaOtherFamily(singapore, "zh-mo"@, 3);
}

/// A tag that begins with none of the languages' two letters is of no language that is spoken here.
pub proof fn lawOtherLanguagesAreNotSpoken(tag: Seq<char>)
    requires
        forall|i: int|
            0 <= i < tag.len() ==> 'a' <= #[trigger] tag[i] <= 'z' || '0' <= tag[i] <= '9' || tag[i] == '-',
    ensures
        localeOfTag(tag) is Some ==> tag.len() == 2 || (tag.len() > 2 && tag[2] == '-'),
        localeOfTag(tag) is Some ==> {
            ||| tag[0] == 'e' && tag[1] == 'n'
            ||| tag[0] == 'z' && tag[1] == 'h'
            ||| tag[0] == 'j' && tag[1] == 'a'
            ||| tag[0] == 'k' && tag[1] == 'o'
            ||| tag[0] == 'e' && tag[1] == 's'
            ||| tag[0] == 'f' && tag[1] == 'r'
            ||| tag[0] == 'd' && tag[1] == 'e'
            ||| tag[0] == 'p' && tag[1] == 't'
            ||| tag[0] == 'r' && tag[1] == 'u'
        },
{
    reveal_strlit("en");
    reveal_strlit("ja");
    reveal_strlit("ko");
    reveal_strlit("es");
    reveal_strlit("fr");
    reveal_strlit("de");
    reveal_strlit("pt");
    reveal_strlit("ru");
    reveal_strlit("zh");
    reveal_strlit("zh-hans");
    reveal_strlit("zh-hant");
    reveal_strlit("zh-tw");
    reveal_strlit("zh-hk");
    reveal_strlit("zh-mo");
    reveal_strlit("zh-cn");
    reveal_strlit("zh-sg");
    lemmaPlainTag(tag);
    assert forall|family: Seq<char>|
        family.len() > 2 && family[0] == 'z' && family[1] == 'h' && family[2] == '-' && (
        #[trigger] inFamily(tag, family)) implies tag.len() > 2 && tag[0] == 'z' && tag[1] == 'h' && tag[2]
        == '-' by {
        if startsWith(tag, family + "-"@) {
            let head = tag.take((family + "-"@).len() as int);
            assert(head[0] == 'z' && head[1] == 'h' && head[2] == '-');
            assert(tag[0] == head[0] && tag[1] == head[1] && tag[2] == head[2]);
        }
    }
    lawFirstPieceEndsAtSeparator(tag, '-');
    lemmaIndexOf(tag, '-');
    let first = splitOn(tag, '-')[0];
    if primaryLocale(first) is Some {
        assert(first.len() == 2);
        assert(indexOf(tag, '-') == 2);
        assert(tag[0] == first[0] && tag[1] == first[1]);
    }
}

/// A template in the language that was asked for goes before the English one, which stands in where there is none.
pub proof fn lawOwnLanguageComesFirst(catalogs: Seq<LocaleCatalog>, code: ErrorCode, locale: Locale)
    ensures
        templateFor(catalogs, locale, errorKey(code)) is Some ==> errorTemplate(catalogs, code, locale)
            == templateFor(catalogs, locale, errorKey(code)),
        templateFor(catalogs, locale, errorKey(code)) is None ==> errorTemplate(catalogs, code, locale)
            == templateFor(catalogs, Locale::En, errorKey(code)),
{
}

/// A template is found under its key, whatever stands before it under other keys.
pub proof fn lawTemplateIsFoundByKey(entries: Seq<CatalogEntry>, at: int, key: Seq<char>)
    ensures
        0 <= at < entries.len() && entries[at].key@ == key && (forall|i: int|
            0 <= i < at ==> (#[trigger] entries[i]).key@ != key) ==> templateIn(entries, key) == Some(
            entries[at].template@,
        ),
        (forall|i: int| 0 <= i < entries.len() ==> (#[trigger] entries[i]).key@ != key) ==> templateIn(
            entries,
            key,
        ) is None,
    decreases entries.len(),
{
    if entries.len() > 0 {
        let rest = entries.drop_first();
        lawTemplateIsFoundByKey(rest, at - 1, key);
        assert forall|i: int|
            0 <= i < rest.len() && (forall|k: int|
                0 <= k < entries.len() ==> (#[trigger] entries[k]).key@ != key) implies (
        #[trigger] rest[i]).key@ != key by {
            assert(entries[i + 1].key@ != key);
        }
        if 0 < at < entries.len() && entries[at].key@ == key && (forall|i: int|
            0 <= i < at ==> (#[trigger] entries[i]).key@ != key) {
            assert(entries[0].key@ != key);
            assert(rest[at - 1] == entries[at]);
            assert forall|i: int| 0 <= i < at - 1 implies (#[trigger] rest[i]).key@ != key by {
                assert(entries[i + 1].key@ != key);
            }
        }
        if forall|i: int| 0 <= i < entries.len() ==> (#[trigger] entries[i]).key@ != key {
            assert(entries[0].key@ != key);
        }
    }
}

/// The catalog of a language is the first one that is of it.
pub proof fn lawCatalogIsFoundByLanguage(
    catalogs: Seq<LocaleCatalog>,
    at: int,
    locale: Locale,
    key: Seq<char>,
)
    requires
        0 <= at < catalogs.len(),
        catalogs[at].locale == locale,
        forall|i: int| 0 <= i < at ==> (#[trigger] catalogs[i]).locale != locale,
    ensures
        templateFor(catalogs, locale, key) == templateIn(catalogs[at].entries@, key),
    decreases catalogs.len(),
{
    if at > 0 {
        let rest = catalogs.drop_first();
        assert(catalogs[0].locale != locale);
        assert forall|i: int| 0 <= i < at - 1 implies (#[trigger] rest[i]).locale != locale by {
            assert(catalogs[i + 1].locale != locale);
        }
        lawCatalogIsFoundByLanguage(rest, at - 1, locale, key);
    }
}

/// A name in braces gives way to the value of the parameter of that name, and what stands around it stays.
pub proof fn lawPlaceholderIsFilled(
    before: Seq<char>,
    name: Seq<char>,
    after: Seq<char>,
    value: Seq<char>,
)
    requires
        !before.contains('{'),
        !after.contains('{'),
    ensures
        interpolated(before + "{"@ + name + "}"@ + after, seq![(name, value)]) == before + value + after,
{
    let template = before + "{"@ + name + "}"@ + after;
    let pattern = "{"@ + name + "}"@;
    reveal_strlit("{");
    reveal_strlit("}");
    let params = seq![(name, value)];
    assert(params.drop_last() =~= Seq::<(Seq<char>, Seq<char>)>::empty());
    assert(interpolated(template, params.drop_last()) == template);
    assert(template =~= before + pattern + after);
    assert(pattern[0] == '{');
    lawPatternIsReplaced(before, pattern, after, value);
    lemmaReplaceAbsent(after, pattern, value);
}

/// A parameter that the template does not name changes nothing, and every parameter is filled into what the ones
/// before it left.
pub proof fn lawParametersAreFilledInTurn(
    template: Seq<char>,
    params: Seq<(Seq<char>, Seq<char>)>,
    name: Seq<char>,
    value: Seq<char>,
)
    ensures
        interpolated(template, Seq::empty()) == template,
        interpolated(template, params.push((name, value))) == replaced(
            interpolated(template, params),
            seq!['{'] + name + seq!['}'],
            value,
        ),
{
    reveal_strlit("{");
    reveal_strlit("}");
    assert("{"@ =~= seq!['{']);
    assert("}"@ =~= seq!['}']);
    assert(params.push((name, value)).drop_last() =~= params);
}

/// Marks at the head of a text are taken off, and nothing else is.
pub proof fn lawByteOrderMarkIsTakenOff(text: Seq<char>)
    ensures
        withoutByteOrderMark(seq!['\u{feff}'] + text) == withoutByteOrderMark(text),
        text.len() == 0 || text[0] != '\u{feff}' ==> withoutByteOrderMark(text) == text,
{
    assert((seq!['\u{feff}'] + text).drop_first() =~= text);
}

proof fn lemmaNumberIsTrimmed(text: Seq<char>)
    requires
        text.len() > 0,
        forall|i: int| 0 <= i < text.len() ==> isDigit(#[trigger] text[i]) || text[i] == '.',
    ensures
        trimmed(text) == text,
{
    assert(!isWhitespace(text[0]));
    assert(!isWhitespace(text.last()));
}

proof fn lemmaFractionParts(whole: char, fraction: Seq<char>)
    requires
        isDigit(whole),
        forall|i: int| 0 <= i < fraction.len() ==> isDigit(#[trigger] fraction[i]),
    ensures
        ({
            let text = seq![whole, '.'] + fraction;
            &&& beforeSeparator(trimmed(text), '.') == seq![whole]
            &&& afterSeparator(trimmed(text), '.') == fraction
        }),
{
    let text = seq![whole, '.'] + fraction;
    assert forall|i: int| 0 <= i < text.len() implies isDigit(#[trigger] text[i]) || text[i] == '.' by {
        if i >= 2 {
            assert(text[i] == fraction[i - 2]);
        }
    }
    lemmaNumberIsTrimmed(text);
    let left = seq![whole];
    assert(!left.contains('.'));
    lawSplitOnceUndoesPairing(left, '.', fraction);
    assert(left + seq!['.'] + fraction =~= text);
}

/// A quality counts in thousandths: one to three decimals behind a nought count as tenths, hundredths and
/// thousandths. A one is the most there is, whatever noughts follow it.
pub proof fn lawQualityCountsThousandths(a: char, b: char, c: char)
    requires
        '0' <= a <= '9',
        '0' <= b <= '9',
        '0' <= c <= '9',
    ensures
        qualityOf(seq!['0', '.', a]) == Some((a as int - 48) * 100),
        qualityOf(seq!['0', '.', a, b]) == Some((a as int - 48) * 100 + (b as int - 48) * 10),
        qualityOf(seq!['0', '.', a, b, c]) == Some(
            (a as int - 48) * 100 + (b as int - 48) * 10 + (c as int - 48),
        ),
        qualityOf(seq!['1', '.', a, b, c]) == if a == '0' && b == '0' && c == '0' {
            Some(1000int)
        } else {
            None
        },
        '1' < a ==> qualityOf(seq![a, '.', b]) is None,
{
    reveal_strlit("0");
    reveal_strlit("1");
    reveal_with_fuel(decimalValue, 4);
    assert("0"@ =~= seq!['0']);
    assert("1"@ =~= seq!['1']);
    assert("1"@[0] != "0"@[0]);
    let one = seq![a];
    let two = seq![a, b];
    let three = seq![a, b, c];
    assert(one.drop_last() =~= Seq::<char>::empty());
    assert(two.drop_last() =~= one);
    assert(three.drop_last() =~= two);
    lemmaFractionParts('0', one);
    lemmaFractionParts('0', two);
    lemmaFractionParts('0', three);
    lemmaFractionParts('1', three);
    assert(seq!['0', '.'] + one =~= seq!['0', '.', a]);
    assert(seq!['0', '.'] + two =~= seq!['0', '.', a, b]);
    assert(seq!['0', '.'] + three =~= seq!['0', '.', a, b, c]);
    assert(seq!['1', '.'] + three =~= seq!['1', '.', a, b, c]);
    if '1' < a {
        lemmaFractionParts(a, seq![b]);
        assert(seq![a, '.'] + seq![b] =~= seq![a, '.', b]);
        assert(seq![a][0] == a);
    }
}

/// A whole number alone is a quality where it is nought or one.
pub proof fn lawWholeQuality(a: char)
    requires
        '0' <= a <= '9',
    ensures
        qualityOf(seq![a]) == if a == '0' {
            Some(0int)
        } else if a == '1' {
            Some(1000int)
        } else {
            None
        },
{
    reveal_strlit("0");
    reveal_strlit("1");
    let text = seq![a];
    assert("0"@ =~= seq!['0']);
    assert("1"@ =~= seq!['1']);
    assert(text[0] == a && "0"@[0] == '0' && "1"@[0] == '1');
    lemmaNumberIsTrimmed(text);
    assert(!text.contains('.'));
    lawSplitOnceUndoesPairing(text, '.', Seq::empty());
}

/// No quality is negative or above one, and more than three decimals are none.
pub proof fn lawQualityIsBounded(raw: Seq<char>)
    ensures
        qualityOf(raw) is Some ==> 0 <= qualityOf(raw)->0 <= 1000,
        splitOnce(trimmed(raw), '.') is Some && splitOnce(trimmed(raw), '.')->Some_0.1.len() > 3 ==> qualityOf(
            raw,
        ) is None,
{
    let fraction = afterSeparator(trimmed(raw), '.');
    reveal_with_fuel(decimalValue, 4);
    if fraction.len() <= 3 && forall|i: int| 0 <= i < fraction.len() ==> isDigit(#[trigger] fraction[i]) {
        if fraction.len() > 0 {
            assert(isDigit(fraction[fraction.len() - 1]));
        }
        if fraction.len() > 1 {
            assert(isDigit(fraction[fraction.len() - 2]));
            assert(fraction.drop_last().last() == fraction[fraction.len() - 2]);
        }
        if fraction.len() > 2 {
            assert(isDigit(fraction[0]));
            assert(fraction.drop_last().drop_last().last() == fraction[0]);
        }
    }
}

/// Without parameters the quality is that of one; a parameter `q`, in either case, gives it. A second one, or one
/// without a value, leaves none, and a parameter of another name is passed over.
pub proof fn lawQualityParameter(
    value: Seq<char>,
    name: Seq<char>,
    other: Seq<char>,
    rest: Seq<Seq<char>>,
    seen: bool,
    quality: Option<int>,
)
    requires
        value.len() > 0 && !isWhitespace(value.last()),
        name == seq!['q'] || name == seq!['Q'],
        trimmed(other) == other,
        !other.contains('='),
    ensures
        parametersQuality(Seq::empty(), seen, quality) == quality,
        parametersQuality(seq![name + seq!['='] + value] + rest, false, quality) == parametersQuality(
            rest,
            true,
            qualityOf(value),
        ),
        parametersQuality(seq![name + seq!['='] + value] + rest, true, quality) is None,
        parametersQuality(seq![name] + rest, seen, quality) is None,
        other != seq!['q'] && other != seq!['Q'] ==> parametersQuality(seq![other] + rest, seen, quality)
            == parametersQuality(rest, seen, quality),
        other.len() > 0 && other != seq!['q'] && other != seq!['Q'] ==> parametersQuality(
            seq![other + seq!['='] + value] + rest,
            seen,
            quality,
        ) == parametersQuality(rest, seen, quality),
{
    reveal_strlit("q");
    let q = asciiLowered("q"@);
    assert(q =~= seq!['q']);
    let given = name + seq!['='] + value;
    assert(given[0] == name[0]);
    assert(given.last() == value.last());
    assert(trimmed(given) == given);
    assert(trimmed(name) == name) by {
        assert(!isWhitespace(name[0]));
        assert(name.last() == name[0]);
    }
    assert(!name.contains('='));
    lawSplitOnceUndoesPairing(name, '=', value);
    assert(asciiLowered(name) =~= q);
    let parameters = seq![given] + rest;
    assert(parameters[0] == given);
    assert(parameters.drop_first() =~= rest);
    let bare = seq![name] + rest;
    assert(bare[0] == name);
    assert(bare.drop_first() =~= rest);
    if other != seq!['q'] && other != seq!['Q'] {
        assert(asciiLowered(other) != q) by {
            if asciiLowered(other) == q {
                assert(asciiLowered(other).len() == other.len());
                assert(asciiLowered(other)[0] == asciiLower(other[0]));
                assert(other =~= seq![other[0]]);
            }
        }
        let passed = seq![other] + rest;
        assert(passed[0] == other);
        assert(passed.drop_first() =~= rest);
        lawSplitOnceUndoesPairing(other, '=', value);
        if other.len() > 0 {
            let pair = other + seq!['='] + value;
            lemmaTrimmedEnds(other);
            assert(pair[0] == other[0]);
            assert(pair.last() == value.last());
            assert(trimmed(pair) == pair);
            let paired = seq![pair] + rest;
            assert(paired[0] == pair);
            assert(paired.drop_first() =~= rest);
        }
    }
}

/// A language alone is wanted at the quality of one; with a quality it is wanted at that, and not at all where the
/// quality is nought or cannot be read.
pub proof fn lawLanguageIsWantedAtItsQuality(tag: Seq<char>, value: Seq<char>)
    requires
        tag.len() > 0 && trimmed(tag) == tag && !tag.contains(';'),
        value.len() > 0 && !isWhitespace(value.last()) && !value.contains(';'),
    ensures
        candidateOf(tag) == Some((tag, 1000int)),
        qualityOf(value) is Some && qualityOf(value)->0 > 0 ==> candidateOf(
            tag + seq![';', 'q', '='] + value,
        ) == Some((tag, qualityOf(value)->0)),
        qualityOf(value) is None || qualityOf(value)->0 == 0 ==> candidateOf(
            tag + seq![';', 'q', '='] + value,
        ) is None,
{
    let none = Seq::<Seq<char>>::empty();
    lemmaTrimmedEnds(tag);
    lawFirstPieceEndsAtSeparator(tag, ';');
    lemmaIndexOf(tag, ';');
    let alone = splitOn(tag, ';');
    assert(tag.take(tag.len() as int) =~= tag);
    if indexOf(tag, ';') < tag.len() {
        assert(tag.contains(tag[indexOf(tag, ';')]));
    }
    assert(alone.drop_first() =~= none);
    let item = tag + seq![';', 'q', '='] + value;
    assert(item[0] == tag[0]);
    assert(item.last() == value.last());
    assert(trimmed(item) == item);
    let parameter = seq!['q'] + seq!['='] + value;
    let pieces = seq![tag, parameter];
    assert(!parameter.contains(';')) by {
        if parameter.contains(';') {
            let k = choose|k: int| 0 <= k < parameter.len() && parameter[k] == ';';
            assert(k >= 2);
            assert(value[k - 2] == ';');
        }
    }
    lawSplitUndoesJoin(pieces, ';');
    reveal_with_fuel(joined, 3);
    assert(pieces.drop_last() =~= seq![tag]);
    assert(joined(pieces, seq![';']) =~= item);
    let parts = splitOn(item, ';');
    assert(parts.drop_first() =~= seq![parameter] + none);
    let name = seq!['q'];
    assert(!none.contains(name));
    assert(trimmed(Seq::<char>::empty()) == Seq::<char>::empty());
    lawQualityParameter(value, name, Seq::empty(), none, false, Some(1000int));
}

/// The languages of all header lines are listed one after the other; a line that cannot be read adds none.
pub proof fn lawLanguageLinesAreListed(headers: Seq<Option<Seq<char>>>, texts: Seq<Seq<char>>)
    requires
        texts.len() > 0,
        forall|i: int| 0 <= i < texts.len() ==> !(#[trigger] texts[i]).contains(','),
    ensures
        languageItems(Seq::empty()) == Seq::<Seq<char>>::empty(),
        languageItems(headers.push(Some(joined(texts, seq![','])))) == languageItems(headers) + texts,
        languageItems(headers.push(None)) == languageItems(headers),
{
    lawSplitUndoesJoin(texts, ',');
    assert(headers.push(Some(joined(texts, seq![',']))).drop_last() =~= headers);
    assert(headers.push(None).drop_last() =~= headers);
    assert(languageItems(headers.push(None)) =~= languageItems(headers));
}

/// The language wanted most is spoken, of several wanted alike the one named first; where none is spoken, nothing is
/// agreed on.
pub proof fn lawMostWantedLanguageIsChosen(items: Seq<Seq<char>>, at: int, locale: Locale, quality: int)
    requires
        0 <= at < items.len(),
        candidateOf(items[at]) is Some,
        localeOfTag(candidateOf(items[at])->Some_0.0) == Some(locale),
        candidateOf(items[at])->Some_0.1 == quality,
        forall|i: int|
            0 <= i < at && candidateOf(#[trigger] items[i]) is Some && localeOfTag(
                candidateOf(items[i])->Some_0.0,
            ) is Some ==> candidateOf(items[i])->Some_0.1 < quality,
        forall|i: int|
            at < i < items.len() && candidateOf(#[trigger] items[i]) is Some && localeOfTag(
                candidateOf(items[i])->Some_0.0,
            ) is Some ==> candidateOf(items[i])->Some_0.1 <= quality,
    ensures
        negotiates(items, Some(locale)),
        !negotiates(items, None),
        forall|other: Locale| #[trigger] negotiates(items, Some(other)) ==> other == locale,
{
    assert(isBestOffer(items, at));
    assert(isOffer(items[at]));
    assert forall|other: Locale| #[trigger] negotiates(items, Some(other)) implies other == locale by {
        lawNegotiationIsUnique(items, Some(other), Some(locale));
    }
}

/// The address asks for a language in its first `locale` that is one; what stands before it does not count.
pub proof fn lawAddressNamesTheLanguage(
    earlier: Seq<Seq<char>>,
    value: Seq<char>,
    later: Seq<Seq<char>>,
)
    requires
        localeOfTag(value) is Some,
        forall|i: int|
            0 <= i < earlier.len() ==> beforeSeparator(#[trigger] earlier[i], '=') != "locale"@,
    ensures
        queryLocale(earlier + seq!["locale="@ + value] + later) == localeOfTag(value),
        queryLocale(earlier) is None,
    decreases earlier.len(),
{
    let pair = "locale="@ + value;
    let pairs = earlier + seq![pair] + later;
    if earlier.len() == 0 {
        reveal_strlit("locale=");
        reveal_strlit("locale");
        let name = "locale"@;
        assert(!name.contains('='));
        assert(pair =~= name + seq!['='] + value);
        lawSplitOnceUndoesPairing(name, '=', value);
        assert(pairs[0] == pair);
    } else {
        let rest = earlier.drop_first();
        assert forall|i: int| 0 <= i < rest.len() implies beforeSeparator(#[trigger] rest[i], '=')
            != "locale"@ by {
            assert(rest[i] == earlier[i + 1]);
        }
        lawAddressNamesTheLanguage(rest, value, later);
        assert(pairs[0] == earlier[0]);
        assert(pairs.drop_first() =~= rest + seq![pair] + later);
    }
}

/// The language that the address asks for goes before what the headers want; English is spoken where neither names
/// a language.
pub proof fn lawAddressGoesBeforeHeaders(
    query: Option<Seq<char>>,
    items: Seq<Seq<char>>,
    wanted: Locale,
    locale: Locale,
)
    ensures
        query is Some && queryLocale(splitOn(query->0, '&')) == Some(wanted) ==> (isRequestLocale(
            query,
            items,
            locale,
        ) <==> locale == wanted),
        (query is None || queryLocale(splitOn(query->0, '&')) is None) && negotiates(items, Some(wanted))
            ==> (isRequestLocale(query, items, locale) <==> locale == wanted),
        (query is None || queryLocale(splitOn(query->0, '&')) is None) && negotiates(items, None) ==> (
        isRequestLocale(query, items, locale) <==> locale == Locale::En),
{
    if negotiates(items, Some(wanted)) {
        if negotiates(items, None) {
            lawNegotiationIsUnique(items, Some(wanted), None);
        }
        if negotiates(items, Some(locale)) {
            lawNegotiationIsUnique(items, Some(wanted), Some(locale));
        }
    }
    if negotiates(items, None) && negotiates(items, Some(locale)) {
        lawNegotiationIsUnique(items, None, Some(locale));
    }
}

} // verus!
