//! Checking recorded bodies: validators, their configuration and their reports.

use crate::controlApi::protocolControl::htmlStructure::{htmlIssues, validateHtmlWellFormed};
use crate::controlApi::protocolControl::ProtocolError;
use crate::documents::{
    findList, findText, findUnsigned, listMember, readDocument, textMember, unsignedMember,
    writtenDocument,
};
use crate::text::{
    asciiLowerText, asciiLowered, copyText, equalText, holds, holdsText, startsWith,
    startsWithText, textFromBytes, views,
};
use vstd::prelude::*;
use vstd::utf8::{decode_utf8, valid_utf8};

verus! {

/// How grave a problem is.
#[derive(Clone, Copy, Debug, PartialEq, Eq, Structural)]
pub enum ValidationSeverity {
    Info,
    Warning,
    Error,
}

/// A problem of a body: the key of its message and its place, where it has one.
#[derive(Debug)]
pub struct ValidationIssue {
    pub severity: ValidationSeverity,
    pub messageKey: String,
    pub line: Option<usize>,
    pub column: Option<usize>,
}

/// The mathematical value of a problem.
pub struct IssueView {
    pub severity: ValidationSeverity,
    pub messageKey: Seq<char>,
    pub line: Option<usize>,
    pub column: Option<usize>,
}

impl View for ValidationIssue {
    type V = IssueView;

    open spec fn view(&self) -> IssueView {
        IssueView {
            severity: self.severity,
            messageKey: self.messageKey@,
            line: self.line,
            column: self.column,
        }
    }
}

/// The values of problems.
pub open spec fn issueViews(issues: Seq<ValidationIssue>) -> Seq<IssueView> {
    issues.map_values(|issue: ValidationIssue| issue@)
}

/// An error at a place.
pub fn validationIssue(messageKey: &str, line: usize, column: usize) -> (result: ValidationIssue)
    ensures
        result@ == (IssueView {
            severity: ValidationSeverity::Error,
            messageKey: messageKey@,
            line: Some(line),
            column: Some(column),
        }),
{
    ValidationIssue {
        severity: ValidationSeverity::Error,
        messageKey: copyText(messageKey),
        line: Some(line),
        column: Some(column),
    }
}

// ---------------------------------------------------------------------------
// Configuration
// ---------------------------------------------------------------------------

/// The validators.
#[derive(Clone, Copy, Debug, PartialEq, Eq, Structural)]
pub enum ValidatorId {
    HtmlWellFormed,
    JsonSchema,
    W3cHtmlOnline,
}

/// Whether one validator may be used.
#[derive(Clone, Copy, Debug, PartialEq, Eq, Structural)]
pub struct ValidatorConfiguration {
    pub id: ValidatorId,
    pub enabled: bool,
}

/// The configuration of all validators.
#[derive(Clone, Debug)]
pub struct ValidateConfiguration {
    pub enabled: bool,
    pub validators: Vec<ValidatorConfiguration>,
    pub allowOnlineValidators: bool,
    pub w3cEndpoint: String,
}

/// The online validator that is asked by default.
pub const defaultW3cEndpoint: &'static str = "https://validator.w3.org/nu/?out=json";

impl Default for ValidateConfiguration {
    /// Only the structural check of HTML is on; nothing is sent anywhere.
    fn default() -> (result: ValidateConfiguration)
        ensures
            result.enabled,
            !result.allowOnlineValidators,
            result.w3cEndpoint@ == defaultW3cEndpoint@,
            result.validators@ == seq![
                ValidatorConfiguration { id: ValidatorId::HtmlWellFormed, enabled: true },
                ValidatorConfiguration { id: ValidatorId::JsonSchema, enabled: false },
                ValidatorConfiguration { id: ValidatorId::W3cHtmlOnline, enabled: false },
            ],
    {
        let mut validators: Vec<ValidatorConfiguration> = Vec::new();
        validators.push(ValidatorConfiguration { id: ValidatorId::HtmlWellFormed, enabled: true });
        validators.push(ValidatorConfiguration { id: ValidatorId::JsonSchema, enabled: false });
        validators.push(ValidatorConfiguration { id: ValidatorId::W3cHtmlOnline, enabled: false });
        ValidateConfiguration {
            enabled: true,
            validators,
            allowOnlineValidators: false,
            w3cEndpoint: copyText(defaultW3cEndpoint),
        }
    }
}

/// The scheme of the address that a text writes, if it is one.
pub uninterp spec fn urlScheme(text: Seq<char>) -> Option<Seq<char>>;

/// Reads the scheme of an address.
///
/// Trusted: `reqwest::Url::parse`. The scheme depends on the text alone.
#[verifier::external_body]
pub(crate) fn readUrlScheme(text: &str) -> (result: Option<String>)
    ensures
        crate::text::optionalView(result) == urlScheme(text@),
{
    reqwest::Url::parse(text).ok().map(|url| url.scheme().to_owned())
}

/// Whether every validator stands once.
pub open spec fn areDistinct(validators: Seq<ValidatorConfiguration>) -> bool {
    forall|i: int, j: int|
        0 <= i < j < validators.len() ==> (#[trigger] validators[i]).id != (
        #[trigger] validators[j]).id
}

/// Whether an address's scheme is that of the web.
pub open spec fn isWebScheme(scheme: Option<Seq<char>>) -> bool {
    scheme matches Some(text) && (text == "http"@ || text == "https"@)
}

/// Whether a scheme is that of the web.
pub fn checkScheme(scheme: &Option<String>) -> (result: bool)
    ensures
        result == isWebScheme(crate::text::optionalView(*scheme)),
{
    match scheme {
        Some(text) => equalText(text.as_str(), "http") || equalText(text.as_str(), "https"),
        None => false,
    }
}

/// Whether a configuration can be used: it names each validator once and a web address.
pub open spec fn isUsableConfiguration(configuration: ValidateConfiguration) -> bool {
    &&& configuration.validators@.len() > 0
    &&& areDistinct(configuration.validators@)
    &&& isWebScheme(urlScheme(configuration.w3cEndpoint@))
}

/// Checks a configuration.
pub fn validateValidateConfiguration(configuration: &ValidateConfiguration) -> (result: Result<
    (),
    ProtocolError,
>)
    ensures
        result == if isUsableConfiguration(*configuration) {
            Ok::<(), ProtocolError>(())
        } else {
            Err(ProtocolError::InvalidValidateConfiguration)
        },
{
    let validators = &configuration.validators;
    if validators.len() == 0 {
        return Err(ProtocolError::InvalidValidateConfiguration);
    }
    let mut i: usize = 0;
    while i < validators.len()
        invariant
            i <= validators.len(),
            validators@ == configuration.validators@,
            forall|a: int, b: int|
                0 <= a < b < i ==> (#[trigger] validators@[a]).id != (#[trigger] validators@[b]).id,
        decreases validators.len() - i,
    {
        let mut k: usize = 0;
        while k < i
            invariant
                k <= i < validators.len(),
                validators@ == configuration.validators@,
                forall|a: int| 0 <= a < k ==> (#[trigger] validators@[a]).id != validators@[i as int].id,
            decreases i - k,
        {
            if validators[k].id == validators[i].id {
                assert(!areDistinct(configuration.validators@));
                return Err(ProtocolError::InvalidValidateConfiguration);
            }
            k += 1;
        }
        i += 1;
    }
    let scheme = readUrlScheme(configuration.w3cEndpoint.as_str());
    if !checkScheme(&scheme) {
        return Err(ProtocolError::InvalidValidateConfiguration);
    }
    Ok(())
}

/// Whether a validator may be used; one that is not listed may not.
pub open spec fn isValidatorEnabled(
    validators: Seq<ValidatorConfiguration>,
    id: ValidatorId,
) -> bool
    decreases validators.len(),
{
    if validators.len() == 0 {
        false
    } else if validators[0].id == id {
        validators[0].enabled
    } else {
        isValidatorEnabled(validators.drop_first(), id)
    }
}

/// Whether a validator may be used.
pub fn validatorEnabled(configuration: &ValidateConfiguration, id: ValidatorId) -> (result: bool)
    ensures
        result == isValidatorEnabled(configuration.validators@, id),
{
    let ghost all = configuration.validators@;
    let mut i: usize = 0;
    assert(all.skip(0) == all);
    while i < configuration.validators.len()
        invariant
            i <= configuration.validators.len(),
            all == configuration.validators@,
            isValidatorEnabled(all, id) == isValidatorEnabled(all.skip(i as int), id),
        decreases configuration.validators.len() - i,
    {
        assert(all.skip(i as int).drop_first() == all.skip(i + 1));
        if configuration.validators[i].id == id {
            return configuration.validators[i].enabled;
        }
        i += 1;
    }
    false
}

// ---------------------------------------------------------------------------
// Validating a body
// ---------------------------------------------------------------------------

/// Whether a content type stands for text.
pub open spec fn isTextual(contentType: Seq<char>) -> bool {
    let lowered = asciiLowered(contentType);
    ||| startsWith(lowered, "text/"@)
    ||| holds(lowered, "json"@)
    ||| holds(lowered, "xml"@)
    ||| holds(lowered, "javascript"@)
    ||| holds(lowered, "html"@)
}

/// Whether a content type stands for text.
pub fn isTextualContent(contentType: &str) -> (result: bool)
    ensures
        result == isTextual(contentType@),
{
    let lowered = asciiLowerText(contentType);
    startsWithText(lowered.as_str(), "text/") || holdsText(lowered.as_str(), "json") || holdsText(
        lowered.as_str(),
        "xml",
    ) || holdsText(lowered.as_str(), "javascript") || holdsText(lowered.as_str(), "html")
}

/// Where a text stops being JSON, by line and column; `None` where all of it is.
pub uninterp spec fn jsonSyntaxError(text: Seq<char>) -> Option<(usize, usize)>;

/// Reads a text as JSON.
///
/// Trusted: `serde_json::from_str` into a `Value`, with the line and column of its error. The result
/// depends on the text alone.
#[verifier::external_body]
pub(crate) fn findJsonError(text: &str) -> (result: Option<(usize, usize)>)
    ensures
        result == jsonSyntaxError(text@),
{
    serde_json::from_str::<serde_json::Value>(text).err().map(
        |error| (error.line(), error.column()),
    )
}

/// The problem of a text that stops being JSON at a place.
pub open spec fn jsonIssues(place: Option<(usize, usize)>) -> Seq<IssueView> {
    match place {
        None => Seq::empty(),
        Some((line, column)) => seq![
            IssueView {
                severity: ValidationSeverity::Error,
                messageKey: "validate.json.invalidSyntax"@,
                line: Some(line),
                column: Some(column),
            },
        ],
    }
}

/// Reports where a text stops being JSON.
pub fn reportJsonError(place: Option<(usize, usize)>) -> (result: Vec<ValidationIssue>)
    ensures
        issueViews(result@) == jsonIssues(place),
{
    let mut issues: Vec<ValidationIssue> = Vec::new();
    match place {
        None => {},
        Some((line, column)) => {
            issues.push(validationIssue("validate.json.invalidSyntax", line, column));
        },
    }
    assert(issueViews(issues@) == jsonIssues(place));
    issues
}

/// Checks that a text is JSON.
pub fn validateJsonSyntax(source: &str) -> (result: Vec<ValidationIssue>)
    ensures
        issueViews(result@) == jsonIssues(jsonSyntaxError(source@)),
{
    let place = findJsonError(source);
    reportJsonError(place)
}

/// What one validation comes to.
#[derive(Debug)]
pub enum BodyValidation {
    /// The body was checked here.
    Checked(Vec<ValidationIssue>),
    /// The text goes to the online validator at an address.
    Online { endpoint: String, text: String },
}

/// The mathematical value of a validation.
pub enum BodyValidationView {
    Checked(Seq<IssueView>),
    Online { endpoint: Seq<char>, text: Seq<char> },
}

impl View for BodyValidation {
    type V = BodyValidationView;

    open spec fn view(&self) -> BodyValidationView {
        match self {
            BodyValidation::Checked(issues) => BodyValidationView::Checked(issueViews(issues@)),
            BodyValidation::Online { endpoint, text } => BodyValidationView::Online {
                endpoint: endpoint@,
                text: text@,
            },
        }
    }
}

/// What is done with a body: only text is validated, only by a validator that is on, and only a
/// confirmed request sends it out.
pub open spec fn plannedValidation(
    configuration: ValidateConfiguration,
    contentType: Seq<char>,
    body: Seq<u8>,
    validator: ValidatorId,
    confirmed: bool,
) -> Result<BodyValidationView, ProtocolError> {
    if !isTextual(contentType) {
        Err(ProtocolError::UnsupportedValidationContent)
    } else if !configuration.enabled || !isValidatorEnabled(configuration.validators@, validator) {
        Err(ProtocolError::ValidatorDisabled)
    } else if !valid_utf8(body) {
        Err(ProtocolError::UnsupportedValidationContent)
    } else {
        let text = decode_utf8(body);
        match validator {
            ValidatorId::HtmlWellFormed => Ok(BodyValidationView::Checked(htmlIssues(text))),
            ValidatorId::JsonSchema => Ok(
                BodyValidationView::Checked(jsonIssues(jsonSyntaxError(text))),
            ),
            ValidatorId::W3cHtmlOnline => if configuration.allowOnlineValidators && confirmed {
                Ok(BodyValidationView::Online { endpoint: configuration.w3cEndpoint@, text })
            } else {
                Err(ProtocolError::OnlineUploadConfirmationRequired)
            },
        }
    }
}

/// Validates a body, or tells what has to be sent out for it.
pub fn validateBody(
    configuration: &ValidateConfiguration,
    contentType: &str,
    body: &Vec<u8>,
    validator: ValidatorId,
    onlineUploadConfirmed: bool,
) -> (result: Result<BodyValidation, ProtocolError>)
    ensures
        match result {
            Ok(validation) => plannedValidation(
                *configuration,
                contentType@,
                body@,
                validator,
                onlineUploadConfirmed,
            ) == Ok::<BodyValidationView, ProtocolError>(validation@),
            Err(error) => plannedValidation(
                *configuration,
                contentType@,
                body@,
                validator,
                onlineUploadConfirmed,
            ) == Err::<BodyValidationView, ProtocolError>(error),
        },
{
    if !isTextualContent(contentType) {
        return Err(ProtocolError::UnsupportedValidationContent);
    }
    if !configuration.enabled || !validatorEnabled(configuration, validator) {
        return Err(ProtocolError::ValidatorDisabled);
    }
    let text = match textFromBytes(body.as_slice()) {
        Some(text) => text,
        None => return Err(ProtocolError::UnsupportedValidationContent),
    };
    match validator {
        ValidatorId::HtmlWellFormed => Ok(
            BodyValidation::Checked(validateHtmlWellFormed(text.as_str())),
        ),
        ValidatorId::JsonSchema => Ok(BodyValidation::Checked(validateJsonSyntax(text.as_str()))),
        ValidatorId::W3cHtmlOnline => {
            if !configuration.allowOnlineValidators || !onlineUploadConfirmed {
                return Err(ProtocolError::OnlineUploadConfirmationRequired);
            }
            Ok(
                BodyValidation::Online {
                    endpoint: copyText(configuration.w3cEndpoint.as_str()),
                    text,
                },
            )
        },
    }
}

/// A body leaves the machine only where online validation is allowed, is on and was confirmed for
/// this very request.
pub proof fn lawBodyIsSentOnlyWhenConfirmed(
    configuration: ValidateConfiguration,
    contentType: Seq<char>,
    body: Seq<u8>,
    validator: ValidatorId,
    confirmed: bool,
)
    requires
        plannedValidation(configuration, contentType, body, validator, confirmed) is Ok,
        plannedValidation(configuration, contentType, body, validator, confirmed)->Ok_0 is Online,
    ensures
        confirmed,
        configuration.allowOnlineValidators,
        configuration.enabled,
        validator == ValidatorId::W3cHtmlOnline,
        isValidatorEnabled(configuration.validators@, ValidatorId::W3cHtmlOnline),
        isTextual(contentType),
{
}

/// One message of the online validator.
#[derive(Debug)]
pub struct OnlineMessage {
    pub kind: Option<String>,
    pub lastLine: Option<u64>,
    pub lastColumn: Option<u64>,
}

/// The kind, line and column of an online validator's messages.
pub open spec fn messageViews(messages: Seq<OnlineMessage>) -> Seq<
    (Option<Seq<char>>, Option<u64>, Option<u64>),
> {
    messages.map_values(
        |message: OnlineMessage|
            (crate::text::optionalView(message.kind), message.lastLine, message.lastColumn),
    )
}

/// The kind, line and column of a message, as far as its document holds them.
pub open spec fn onlineMessage(document: Seq<char>) -> (Option<Seq<char>>, Option<u64>, Option<u64>) {
    (
        textMember(document, "type"@),
        unsignedMember(document, "lastLine"@),
        unsignedMember(document, "lastColumn"@),
    )
}

/// The messages that an online validator's answer lists; none where it has no such list.
pub open spec fn answerMessages(document: Seq<char>) -> Seq<
    (Option<Seq<char>>, Option<u64>, Option<u64>),
> {
    match listMember(document, "messages"@) {
        Some(entries) => entries.map_values(|entry: Seq<char>| onlineMessage(entry)),
        None => Seq::empty(),
    }
}

/// The messages of an online validator's answer: of each entry of `messages` its `type`, its `lastLine`
/// and its `lastColumn`, as far as they are there.
pub fn readAnswer(document: &str) -> (result: Vec<OnlineMessage>)
    ensures
        messageViews(result@) == answerMessages(document@),
{
    let ghost wanted = answerMessages(document@);
    let mut messages: Vec<OnlineMessage> = Vec::new();
    let entries = match findList(document, "messages") {
        Some(entries) => entries,
        None => {
            assert(messageViews(messages@) == wanted);
            return messages;
        },
    };
    let mut i: usize = 0;
    while i < entries.len()
        invariant
            i <= entries.len(),
            wanted == views(entries@).map_values(|entry: Seq<char>| onlineMessage(entry)),
            messageViews(messages@) == wanted.take(i as int),
        decreases entries.len() - i,
    {
        let ghost before = messages@;
        let entry = entries[i].as_str();
        messages.push(
            OnlineMessage {
                kind: findText(entry, "type"),
                lastLine: findUnsigned(entry, "lastLine"),
                lastColumn: findUnsigned(entry, "lastColumn"),
            },
        );
        assert(wanted[i as int] == onlineMessage(entry@));
        assert(messageViews(messages@) == messageViews(before).push(wanted[i as int]));
        i += 1;
        assert(messageViews(messages@) == wanted.take(i as int));
    }
    assert(wanted.take(i as int) == wanted);
    messages
}

/// The gravity of an online validator's message.
pub open spec fn onlineSeverity(kind: Option<Seq<char>>) -> ValidationSeverity {
    match kind {
        Some(text) => if text == "error"@ {
            ValidationSeverity::Error
        } else if text == "warning"@ || text == "info warning"@ {
            ValidationSeverity::Warning
        } else {
            ValidationSeverity::Info
        },
        None => ValidationSeverity::Info,
    }
}

/// A number as a place, cut to the machine's width.
pub open spec fn placeNumber(value: Option<u64>) -> Option<usize> {
    match value {
        Some(number) => Some(number as usize),
        None => None,
    }
}

/// The problem that an online validator's message reports.
pub open spec fn onlineIssue(message: (Option<Seq<char>>, Option<u64>, Option<u64>)) -> IssueView {
    IssueView {
        severity: onlineSeverity(message.0),
        messageKey: "validate.online.message"@,
        line: placeNumber(message.1),
        column: placeNumber(message.2),
    }
}

fn readPlace(value: Option<u64>) -> (result: Option<usize>)
    ensures
        result == placeNumber(value),
{
    match value {
        Some(number) => Some(#[verifier::truncate] (number as usize)),
        None => None,
    }
}

/// The problems that messages report.
pub open spec fn onlineIssues(
    messages: Seq<(Option<Seq<char>>, Option<u64>, Option<u64>)>,
) -> Seq<IssueView> {
    messages.map_values(
        |message: (Option<Seq<char>>, Option<u64>, Option<u64>)| onlineIssue(message),
    )
}

/// The problems that an online validator's messages report.
pub fn reportMessages(messages: &Vec<OnlineMessage>) -> (result: Vec<ValidationIssue>)
    ensures
        issueViews(result@) == onlineIssues(messageViews(messages@)),
{
    let ghost wanted = onlineIssues(messageViews(messages@));
    let mut issues: Vec<ValidationIssue> = Vec::new();
    let mut i: usize = 0;
    while i < messages.len()
        invariant
            i <= messages.len(),
            wanted == onlineIssues(messageViews(messages@)),
            issueViews(issues@) == wanted.take(i as int),
        decreases messages.len() - i,
    {
        let ghost before = issues@;
        let message = &messages[i];
        let severity = match &message.kind {
            Some(text) => if equalText(text.as_str(), "error") {
                ValidationSeverity::Error
            } else if equalText(text.as_str(), "warning") || equalText(
                text.as_str(),
                "info warning",
            ) {
                ValidationSeverity::Warning
            } else {
                ValidationSeverity::Info
            },
            None => ValidationSeverity::Info,
        };
        issues.push(
            ValidationIssue {
                severity,
                messageKey: copyText("validate.online.message"),
                line: readPlace(message.lastLine),
                column: readPlace(message.lastColumn),
            },
        );
        assert(wanted[i as int] == onlineIssue(messageViews(messages@)[i as int]));
        assert(issueViews(issues@) == issueViews(before).push(wanted[i as int]));
        i += 1;
        assert(issueViews(issues@) == wanted.take(i as int));
    }
    assert(wanted.take(i as int) == wanted);
    issues
}

/// The problems that an online validator found, from the status and the bytes of its answer. An answer
/// that is no document is a failure; one without messages reports nothing.
pub fn validateOnlineHtml(success: bool, answer: &Vec<u8>) -> (result: Result<
    Vec<ValidationIssue>,
    ProtocolError,
>)
    ensures
        match result {
            Ok(issues) => success && writtenDocument(answer@) is Some && issueViews(issues@)
                == onlineIssues(answerMessages(writtenDocument(answer@)->Some_0)),
            Err(error) => (!success || writtenDocument(answer@) is None) && error
                == ProtocolError::OnlineValidationFailed,
        },
{
    if !success {
        return Err(ProtocolError::OnlineValidationFailed);
    }
    match readDocument(answer.as_slice()) {
        Ok(document) => Ok(reportMessages(&readAnswer(document.as_str()))),
        Err(_) => Err(ProtocolError::OnlineValidationFailed),
    }
}

/// A validator is on where the list says so of it; of two entries for one validator the first counts, and one
/// that is not listed is off.
pub proof fn lawListedValidatorIsOn(validators: Seq<ValidatorConfiguration>, id: ValidatorId)
    ensures
        areDistinct(validators) ==> (isValidatorEnabled(validators, id) <==> exists|i: int|
            0 <= i < validators.len() && (#[trigger] validators[i]).id == id
                && validators[i].enabled),
        (forall|i: int| 0 <= i < validators.len() ==> (#[trigger] validators[i]).id != id)
            ==> !isValidatorEnabled(validators, id),
        validators.len() > 0 && validators[0].id == id ==> isValidatorEnabled(validators, id)
            == validators[0].enabled,
    decreases validators.len(),
{
    if validators.len() > 0 {
        let rest = validators.drop_first();
        lawListedValidatorIsOn(rest, id);
        assert forall|i: int| 0 <= i < rest.len() implies #[trigger] rest[i] == validators[i
            + 1] by {}
        if areDistinct(validators) {
            assert(areDistinct(rest));
            if exists|i: int|
                0 <= i < validators.len() && (#[trigger] validators[i]).id == id
                    && validators[i].enabled {
                let i = choose|i: int|
                    0 <= i < validators.len() && (#[trigger] validators[i]).id == id
                        && validators[i].enabled;
                if i > 0 {
                    assert(rest[i - 1] == validators[i]);
                    assert(validators[0].id != validators[i].id);
                }
            }
            if isValidatorEnabled(validators, id) && validators[0].id != id {
                let i = choose|i: int|
                    0 <= i < rest.len() && (#[trigger] rest[i]).id == id && rest[i].enabled;
                assert(validators[i + 1].id == id && validators[i + 1].enabled);
            }
        }
    }
}

/// Text can be validated, whatever the case of its type: what is called text, and what has JSON, XML,
/// JavaScript or HTML in its type. Nothing else can.
pub proof fn lawTextCanBeValidated(contentType: Seq<char>)
    ensures
        isTextual(contentType) <==> {
            let lowered = asciiLowered(contentType);
            ||| lowered.len() >= 5 && lowered.take(5) == "text/"@
            ||| exists|i: int|
                0 <= i && i + 4 <= lowered.len() && #[trigger] lowered.skip(i).take(4) == "json"@
            ||| exists|i: int|
                0 <= i && i + 3 <= lowered.len() && #[trigger] lowered.skip(i).take(3) == "xml"@
            ||| exists|i: int|
                0 <= i && i + 10 <= lowered.len() && #[trigger] lowered.skip(i).take(10)
                    == "javascript"@
            ||| exists|i: int|
                0 <= i && i + 4 <= lowered.len() && #[trigger] lowered.skip(i).take(4) == "html"@
        },
{
    let lowered = asciiLowered(contentType);
    reveal_strlit("text/");
    reveal_strlit("json");
    reveal_strlit("xml");
    reveal_strlit("javascript");
    reveal_strlit("html");
    assert("text/"@.len() == 5 && "json"@.len() == 4 && "xml"@.len() == 3 && "javascript"@.len() == 10
        && "html"@.len() == 4);
    lemmaHolds(lowered, "json"@, 4);
    lemmaHolds(lowered, "xml"@, 3);
    lemmaHolds(lowered, "javascript"@, 10);
    lemmaHolds(lowered, "html"@, 4);
}

proof fn lemmaHolds(text: Seq<char>, pattern: Seq<char>, length: int)
    requires
        pattern.len() == length,
    ensures
        holds(text, pattern) <==> exists|i: int|
            0 <= i && i + length <= text.len() && #[trigger] text.skip(i).take(
                length,
            ) == pattern,
{
    if holds(text, pattern) {
        let i = choose|i: int|
            0 <= i <= text.len() && #[trigger] startsWith(text.skip(i), pattern);
        assert(text.skip(i).take(length) == pattern);
    }
    if exists|i: int|
        0 <= i && i + length <= text.len() && #[trigger] text.skip(i).take(
            length,
        ) == pattern {
        let i = choose|i: int|
            0 <= i && i + length <= text.len() && #[trigger] text.skip(i).take(
                length,
            ) == pattern;
        assert(startsWith(text.skip(i), pattern));
    }
}

/// A body is validated exactly where it is text, the validator is on and, for a validator elsewhere, sending
/// is allowed and was confirmed; each refusal is told for its own reason.
pub proof fn lawValidatorChecksText(
    configuration: ValidateConfiguration,
    contentType: Seq<char>,
    body: Seq<u8>,
    validator: ValidatorId,
    confirmed: bool,
)
    ensures
        ({
            let planned = plannedValidation(configuration, contentType, body, validator, confirmed);
            let on = configuration.enabled && isValidatorEnabled(
                configuration.validators@,
                validator,
            );
            let text = isTextual(contentType) && valid_utf8(body);
            &&& !isTextual(contentType) ==> planned == Err::<BodyValidationView, ProtocolError>(
                ProtocolError::UnsupportedValidationContent,
            )
            &&& isTextual(contentType) && !on ==> planned == Err::<
                BodyValidationView,
                ProtocolError,
            >(ProtocolError::ValidatorDisabled)
            &&& isTextual(contentType) && on && !valid_utf8(body) ==> planned == Err::<
                BodyValidationView,
                ProtocolError,
            >(ProtocolError::UnsupportedValidationContent)
            &&& text && on && validator == ValidatorId::HtmlWellFormed ==> planned == Ok::<
                BodyValidationView,
                ProtocolError,
            >(BodyValidationView::Checked(htmlIssues(decode_utf8(body))))
            &&& text && on && validator == ValidatorId::JsonSchema ==> (planned matches Ok(checked)
                && (checked matches BodyValidationView::Checked(issues) && match jsonSyntaxError(
                decode_utf8(body),
            ) {
                None => issues.len() == 0,
                Some((line, column)) => issues.len() == 1 && issues[0].line == Some(line)
                    && issues[0].column == Some(column) && issues[0].severity
                    == ValidationSeverity::Error && issues[0].messageKey
                    == "validate.json.invalidSyntax"@,
            }))
            &&& text && on && validator == ValidatorId::W3cHtmlOnline && confirmed
                && configuration.allowOnlineValidators ==> planned == Ok::<
                BodyValidationView,
                ProtocolError,
            >(
                BodyValidationView::Online {
                    endpoint: configuration.w3cEndpoint@,
                    text: decode_utf8(body),
                },
            )
            &&& text && on && validator == ValidatorId::W3cHtmlOnline && !(confirmed
                && configuration.allowOnlineValidators) ==> planned == Err::<
                BodyValidationView,
                ProtocolError,
            >(ProtocolError::OnlineUploadConfirmationRequired)
        }),
{
}

/// What a validator elsewhere says is reported message by message, in its order and at its place: an error as
/// one, a warning of either spelling as one, and anything else as a note.
pub proof fn lawOnlineMessagesAreReported(
    messages: Seq<(Option<Seq<char>>, Option<u64>, Option<u64>)>,
    i: int,
)
    requires
        0 <= i < messages.len(),
        messages[i].1 matches Some(line) ==> line <= usize::MAX,
        messages[i].2 matches Some(column) ==> column <= usize::MAX,
    ensures
        onlineIssues(messages).len() == messages.len(),
        ({
            let issue = onlineIssues(messages)[i];
            let kind = messages[i].0;
            &&& issue.severity == ValidationSeverity::Error <==> kind == Some("error"@)
            &&& issue.severity == ValidationSeverity::Warning <==> kind == Some("warning"@) || kind
                == Some("info warning"@)
            &&& issue.line is Some == messages[i].1 is Some
            &&& issue.line matches Some(line) ==> line == messages[i].1->0
            &&& issue.column is Some == messages[i].2 is Some
            &&& issue.column matches Some(column) ==> column == messages[i].2->0
            &&& issue.messageKey == "validate.online.message"@
        }),
{
    reveal_strlit("error");
    reveal_strlit("warning");
    reveal_strlit("info warning");
    assert("error"@.len() == 5 && "warning"@.len() == 7 && "info warning"@.len() == 12);
}

/// Each message of an answer is taken by its kind, its line and its column, in the order of the list.
pub proof fn lawAnswerIsReadMessageByMessage(document: Seq<char>, entries: Seq<Seq<char>>, i: int)
    requires
        listMember(document, "messages"@) == Some(entries),
        0 <= i < entries.len(),
    ensures
        answerMessages(document).len() == entries.len(),
        answerMessages(document)[i].0 == textMember(entries[i], "type"@),
        answerMessages(document)[i].1 == unsignedMember(entries[i], "lastLine"@),
        answerMessages(document)[i].2 == unsignedMember(entries[i], "lastColumn"@),
{
}

/// The checks can be used where at least one is chosen, none twice, and the service that checks online is on the
/// web.
pub proof fn lawUsableChecks(configuration: ValidateConfiguration, i: int, j: int)
    ensures
        isUsableConfiguration(configuration) && 0 <= i < j < configuration.validators@.len()
            ==> configuration.validators@[i].id != configuration.validators@[j].id,
        configuration.validators@.len() == 0 ==> !isUsableConfiguration(configuration),
        isUsableConfiguration(configuration) ==> urlScheme(configuration.w3cEndpoint@) == Some("http"@)
            || urlScheme(configuration.w3cEndpoint@) == Some("https"@),
        configuration.validators@.len() == 1 && urlScheme(configuration.w3cEndpoint@) == Some("https"@)
            ==> isUsableConfiguration(configuration),
        configuration.validators@.len() == 1 && urlScheme(configuration.w3cEndpoint@) == Some("http"@)
            ==> isUsableConfiguration(configuration),
{
}

} // verus!
