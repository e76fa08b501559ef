//! Certificates: the upload of a client identity field by field, and what a failed operation is
//! answered with.

use crate::controlApi::applicationBodyDecoder::contentCoding::bytesView;
use crate::controlApi::httpControl::{errorWith, plainError, ApiError, ApiErrorView};
use crate::localization::ErrorCode;
use crate::text::{concatThree, copyText, equalText, optionalView, textFromBytes};
use vstd::prelude::*;
use vstd::utf8::{decode_utf8, valid_utf8};

verus! {

pub const maximumClientCertificateUploadBytes: usize = 12582912;

pub const maximumClientCertificateFieldBytes: usize = 8388608;

pub const maximumClientCertificateNameBytes: usize = 320;

pub const maximumClientCertificatePasswordBytes: usize = 4096;

pub const maximumClientCertificateLocationsBytes: usize = 65536;

pub const maximumFormatBytes: usize = 32;

pub const maximumEnabledBytes: usize = 8;

/// Why an operation on certificates fails. `Other` holds the code of the failure.
#[derive(Debug)]
pub enum SslMitmError {
    InvalidLocation,
    InvalidCacheLimit,
    InvalidClientCertificate,
    DuplicateClientCertificate,
    ClientCertificateLimit,
    ClientCertificateNotFound,
    Other(String),
}

/// The answer to a failed operation on certificates: nothing of paths, keys or contents is told.
pub open spec fn sslOperationError(error: SslMitmError) -> ApiErrorView {
    match error {
        SslMitmError::ClientCertificateNotFound => plainError(
            404,
            ErrorCode::InvalidSslConfiguration,
        ),
        SslMitmError::Other(code) => errorWith(
            plainError(500, ErrorCode::SslOperationFailed),
            "sslCode"@,
            code@,
        ),
        _ => plainError(400, ErrorCode::InvalidSslConfiguration),
    }
}

/// Answers a failed operation on certificates.
pub fn mapSslOperationError(error: SslMitmError) -> (result: ApiError)
    ensures
        result@ == sslOperationError(error),
{
    match error {
        SslMitmError::ClientCertificateNotFound => ApiError::notFound(
            ErrorCode::InvalidSslConfiguration,
        ),
        SslMitmError::Other(code) => ApiError::internal(ErrorCode::SslOperationFailed).withParam(
            "sslCode",
            code,
        ),
        _ => ApiError::badRequest(ErrorCode::InvalidSslConfiguration),
    }
}

/// What decides an update of the certificate rules: whether they hold together, whether they could be
/// stored, and whether they could be put into effect, in this order.
pub fn updateSsl(
    verdict: Option<SslMitmError>,
    stored: bool,
    applied: Option<SslMitmError>,
) -> (result: Result<(), ApiError>)
    ensures
        match result {
            Ok(_) => verdict is None && stored && applied is None,
            Err(error) => error@ == match verdict {
                Some(problem) => sslOperationError(problem),
                None => if !stored {
                    plainError(500, ErrorCode::ConfigurationPersistenceFailed)
                } else {
                    sslOperationError(applied->0)
                },
            } && (verdict is Some || !stored || applied is Some),
        },
{
    match verdict {
        Some(problem) => return Err(mapSslOperationError(problem)),
        None => {},
    }
    if !stored {
        return Err(ApiError::internal(ErrorCode::ConfigurationPersistenceFailed));
    }
    match applied {
        Some(problem) => Err(mapSslOperationError(problem)),
        None => Ok(()),
    }
}

// ---------------------------------------------------------------------------
// The upload of a client identity
// ---------------------------------------------------------------------------

/// The answer to an upload that cannot be read; nothing of what it holds is told.
pub open spec fn uploadError() -> ApiErrorView {
    plainError(400, ErrorCode::InvalidSslConfiguration)
}

/// Answers an upload that cannot be read.
pub fn invalidClientCertificateRequest() -> (result: ApiError)
    ensures
        result@ == uploadError(),
{
    ApiError::badRequest(ErrorCode::InvalidSslConfiguration)
}

/// The fields that an upload may hold.
#[derive(Clone, Copy, Debug, PartialEq, Eq, Structural)]
pub enum CertificateField {
    Name,
    Format,
    Enabled,
    Locations,
    Certificate,
    PrivateKey,
    Password,
}

/// The name of a field.
pub open spec fn certificateFieldName(field: CertificateField) -> Seq<char> {
    match field {
        CertificateField::Name => "name"@,
        CertificateField::Format => "format"@,
        CertificateField::Enabled => "enabled"@,
        CertificateField::Locations => "locations"@,
        CertificateField::Certificate => "certificate"@,
        CertificateField::PrivateKey => "privateKey"@,
        CertificateField::Password => "password"@,
    }
}

/// The largest size of a field in bytes.
pub open spec fn certificateFieldLimit(field: CertificateField) -> usize {
    match field {
        CertificateField::Name => maximumClientCertificateNameBytes,
        CertificateField::Format => maximumFormatBytes,
        CertificateField::Enabled => maximumEnabledBytes,
        CertificateField::Locations => maximumClientCertificateLocationsBytes,
        CertificateField::Certificate => maximumClientCertificateFieldBytes,
        CertificateField::PrivateKey => maximumClientCertificateFieldBytes,
        CertificateField::Password => maximumClientCertificatePasswordBytes,
    }
}

/// Whether a field of a name and a size is accepted as a field.
pub open spec fn isAdmitted(name: Seq<char>, size: nat, field: CertificateField) -> bool {
    certificateFieldName(field) == name && size <= certificateFieldLimit(field)
}

fn fieldNamed(name: &str) -> (result: Option<CertificateField>)
    ensures
        match result {
            Some(field) => certificateFieldName(field) == name@,
            None => forall|field: CertificateField| certificateFieldName(field) != name@,
        },
{
    if equalText(name, "name") {
        Some(CertificateField::Name)
    } else if equalText(name, "format") {
        Some(CertificateField::Format)
    } else if equalText(name, "enabled") {
        Some(CertificateField::Enabled)
    } else if equalText(name, "locations") {
        Some(CertificateField::Locations)
    } else if equalText(name, "certificate") {
        Some(CertificateField::Certificate)
    } else if equalText(name, "privateKey") {
        Some(CertificateField::PrivateKey)
    } else if equalText(name, "password") {
        Some(CertificateField::Password)
    } else {
        None
    }
}

fn fieldLimit(field: CertificateField) -> (result: usize)
    ensures
        result == certificateFieldLimit(field),
{
    match field {
        CertificateField::Name => maximumClientCertificateNameBytes,
        CertificateField::Format => maximumFormatBytes,
        CertificateField::Enabled => maximumEnabledBytes,
        CertificateField::Locations => maximumClientCertificateLocationsBytes,
        CertificateField::Certificate => maximumClientCertificateFieldBytes,
        CertificateField::PrivateKey => maximumClientCertificateFieldBytes,
        CertificateField::Password => maximumClientCertificatePasswordBytes,
    }
}

/// No two fields share a name.
pub proof fn lawFieldNamesDiffer(first: CertificateField, second: CertificateField)
    ensures
        certificateFieldName(first) == certificateFieldName(second) ==> first == second,
{
    reveal_strlit("name");
    reveal_strlit("format");
    reveal_strlit("enabled");
    reveal_strlit("locations");
    reveal_strlit("certificate");
    reveal_strlit("privateKey");
    reveal_strlit("password");
    let left = certificateFieldName(first);
    let right = certificateFieldName(second);
    if left == right {
        assert(left.len() == right.len());
        assert(left[0] == right[0]);
    }
}

/// Which field a part of an upload is. A part without a name, of an unknown name or over its size is
/// refused.
pub fn admitField(name: &Option<String>, size: usize) -> (result: Result<CertificateField, ApiError>)
    ensures
        match result {
            Ok(field) => optionalView(*name) matches Some(text) && isAdmitted(
                text,
                size as nat,
                field,
            ),
            Err(error) => error@ == uploadError() && (optionalView(*name) matches Some(text)
                ==> forall|field: CertificateField| !isAdmitted(text, size as nat, field)),
        },
{
    match name {
        Some(text) => match fieldNamed(text.as_str()) {
            Some(field) => if size <= fieldLimit(field) {
                Ok(field)
            } else {
                proof {
                    assert forall|other: CertificateField| !isAdmitted(
                        text@,
                        size as nat,
                        other,
                    ) by {
                        lawFieldNamesDiffer(field, other);
                    }
                }
                Err(invalidClientCertificateRequest())
            },
            None => Err(invalidClientCertificateRequest()),
        },
        None => Err(invalidClientCertificateRequest()),
    }
}

/// The text of a field, where it keeps its size and is one.
pub open spec fn fieldText(bytes: Seq<u8>, maximumBytes: usize) -> Option<Seq<char>> {
    if bytes.len() <= maximumBytes && valid_utf8(bytes) {
        Some(decode_utf8(bytes))
    } else {
        None
    }
}

/// Reads the text of a field.
pub fn parseLimitedUtf8(bytes: &Vec<u8>, maximumBytes: usize) -> (result: Result<String, ApiError>)
    ensures
        match result {
            Ok(text) => fieldText(bytes@, maximumBytes) == Some(text@),
            Err(error) => fieldText(bytes@, maximumBytes) is None && error@ == uploadError(),
        },
{
    if bytes.len() > maximumBytes {
        return Err(invalidClientCertificateRequest());
    }
    match textFromBytes(bytes.as_slice()) {
        Some(text) => Ok(text),
        None => Err(invalidClientCertificateRequest()),
    }
}

/// Whether bytes are blanks of a JSON text: spaces, tabs and line ends.
pub open spec fn areBlanks(bytes: Seq<u8>) -> bool {
    forall|i: int|
        0 <= i < bytes.len() ==> #[trigger] bytes[i] == 0x20 || bytes[i] == 0x9 || bytes[i] == 0xA
            || bytes[i] == 0xD
}

/// Whether bytes are a word with blanks around it or none.
#[verifier::opaque]
pub open spec fn isWordAmongBlanks(bytes: Seq<u8>, word: Seq<u8>) -> bool {
    exists|start: int|
        0 <= start && start + word.len() <= bytes.len() && areBlanks(#[trigger] bytes.take(start))
            && bytes.subrange(start, start + word.len()) == word && areBlanks(
            bytes.skip(start + word.len()),
        )
}

/// What bytes say of a switch: the word `true` or the word `false`.
pub open spec fn switchOf(bytes: Seq<u8>) -> Option<bool> {
    if isWordAmongBlanks(bytes, seq![0x74u8, 0x72u8, 0x75u8, 0x65u8]) {
        Some(true)
    } else if isWordAmongBlanks(bytes, seq![0x66u8, 0x61u8, 0x6Cu8, 0x73u8, 0x65u8]) {
        Some(false)
    } else {
        None
    }
}

/// Reads a switch.
///
/// Trusted: `serde_json::from_slice` into a `bool`. It takes the two words, with the blanks of a JSON
/// text around them, and nothing else.
#[verifier::external_body]
fn readSwitch(bytes: &[u8]) -> (result: Option<bool>)
    ensures
        result == switchOf(bytes@),
{
    serde_json::from_slice::<bool>(bytes).ok()
}

/// What came of an upload so far, over formats of type `F` and locations of type `L`.
#[derive(Debug)]
pub struct ClientCertificateFields<F, L> {
    pub name: Option<String>,
    pub format: Option<F>,
    pub enabled: Option<bool>,
    pub locations: Option<L>,
    pub certificateBytes: Option<Vec<u8>>,
    pub keyBytes: Option<Vec<u8>>,
    pub password: String,
}

/// A client identity to be imported.
#[derive(Debug)]
pub struct ClientCertificateImport<F, L> {
    pub name: String,
    pub format: F,
    pub enabled: bool,
    pub locations: L,
    pub certificateBytes: Vec<u8>,
    pub keyBytes: Option<Vec<u8>>,
    pub password: String,
}

/// What a part of an upload holds. Structured parts come decoded, or as nothing where they could not
/// be decoded.
#[derive(Debug)]
pub enum FieldValue<F, L> {
    Bytes(Vec<u8>),
    Format(Option<F>),
    Locations(Option<L>),
}

/// The mathematical value of an upload.
pub struct FieldsView<F, L> {
    pub name: Option<Seq<char>>,
    pub format: Option<F>,
    pub enabled: Option<bool>,
    pub locations: Option<L>,
    pub certificateBytes: Option<Seq<u8>>,
    pub keyBytes: Option<Seq<u8>>,
    pub password: Seq<char>,
}

impl<F, L> View for ClientCertificateFields<F, L> {
    type V = FieldsView<F, L>;

    open spec fn view(&self) -> FieldsView<F, L> {
        FieldsView {
            name: optionalView(self.name),
            format: self.format,
            enabled: self.enabled,
            locations: self.locations,
            certificateBytes: bytesView(self.certificateBytes),
            keyBytes: bytesView(self.keyBytes),
            password: self.password@,
        }
    }
}

/// An upload with a part taken as a field, where the part fits the field and could be read. A field
/// that comes again takes the place of the one before.
pub open spec fn takenField<F, L>(
    fields: FieldsView<F, L>,
    field: CertificateField,
    value: FieldValue<F, L>,
) -> Option<FieldsView<F, L>> {
    match (field, value) {
        (CertificateField::Name, FieldValue::Bytes(bytes)) => match fieldText(
            bytes@,
            maximumClientCertificateNameBytes,
        ) {
            Some(text) => Some(FieldsView { name: Some(text), ..fields }),
            None => None,
        },
        (CertificateField::Format, FieldValue::Format(Some(format))) => Some(
            FieldsView { format: Some(format), ..fields },
        ),
        (CertificateField::Enabled, FieldValue::Bytes(bytes)) => match switchOf(bytes@) {
            Some(enabled) => Some(FieldsView { enabled: Some(enabled), ..fields }),
            None => None,
        },
        (CertificateField::Locations, FieldValue::Locations(Some(locations))) => Some(
            FieldsView { locations: Some(locations), ..fields },
        ),
        (CertificateField::Certificate, FieldValue::Bytes(bytes)) => Some(
            FieldsView { certificateBytes: Some(bytes@), ..fields },
        ),
        (CertificateField::PrivateKey, FieldValue::Bytes(bytes)) => Some(
            FieldsView { keyBytes: Some(bytes@), ..fields },
        ),
        (CertificateField::Password, FieldValue::Bytes(bytes)) => match fieldText(
            bytes@,
            maximumClientCertificatePasswordBytes,
        ) {
            Some(text) => Some(FieldsView { password: text, ..fields }),
            None => None,
        },
        _ => None,
    }
}

/// What an upload comes to: name, format, locations and certificate must have come, an identity is on
/// where nothing was said of it, and neither key nor password must come.
pub open spec fn isImport<F, L>(
    fields: FieldsView<F, L>,
    import: ClientCertificateImport<F, L>,
) -> bool {
    &&& fields.name == Some(import.name@)
    &&& fields.format == Some(import.format)
    &&& import.enabled == match fields.enabled {
        Some(enabled) => enabled,
        None => true,
    }
    &&& fields.locations == Some(import.locations)
    &&& fields.certificateBytes == Some(import.certificateBytes@)
    &&& fields.keyBytes == bytesView(import.keyBytes)
    &&& fields.password == import.password@
}

impl<F, L> ClientCertificateFields<F, L> {
    /// An upload of which nothing has come.
    pub fn new() -> (result: ClientCertificateFields<F, L>)
        ensures
            result@ == (FieldsView {
                name: None,
                format: None::<F>,
                enabled: None,
                locations: None::<L>,
                certificateBytes: None,
                keyBytes: None,
                password: ""@,
            }),
    {
        ClientCertificateFields {
            name: None,
            format: None,
            enabled: None,
            locations: None,
            certificateBytes: None,
            keyBytes: None,
            password: copyText(""),
        }
    }

    /// Takes a part of the upload as a field.
    pub fn receiveClientCertificate(&mut self, field: CertificateField, value: FieldValue<F, L>) -> (result:
        Result<(), ApiError>)
        ensures
            match result {
                Ok(_) => takenField(old(self)@, field, value) == Some(final(self)@),
                Err(error) => takenField(old(self)@, field, value) is None && error@
                    == uploadError() && final(self)@ == old(self)@,
            },
    {
        match (field, value) {
            (CertificateField::Name, FieldValue::Bytes(bytes)) => {
                match parseLimitedUtf8(&bytes, maximumClientCertificateNameBytes) {
                    Ok(text) => {
                        self.name = Some(text);
                    },
                    Err(error) => return Err(error),
                }
            },
            (CertificateField::Format, FieldValue::Format(Some(format))) => {
                self.format = Some(format);
            },
            (CertificateField::Enabled, FieldValue::Bytes(bytes)) => {
                match readSwitch(bytes.as_slice()) {
                    Some(enabled) => {
                        self.enabled = Some(enabled);
                    },
                    None => return Err(invalidClientCertificateRequest()),
                }
            },
            (CertificateField::Locations, FieldValue::Locations(Some(locations))) => {
                self.locations = Some(locations);
            },
            (CertificateField::Certificate, FieldValue::Bytes(bytes)) => {
                self.certificateBytes = Some(bytes);
            },
            (CertificateField::PrivateKey, FieldValue::Bytes(bytes)) => {
                self.keyBytes = Some(bytes);
            },
            (CertificateField::Password, FieldValue::Bytes(bytes)) => {
                match parseLimitedUtf8(&bytes, maximumClientCertificatePasswordBytes) {
                    Ok(text) => {
                        self.password = text;
                    },
                    Err(error) => return Err(error),
                }
            },
            _ => return Err(invalidClientCertificateRequest()),
        }
        Ok(())
    }

    /// What the upload comes to.
    pub fn intoImport(self) -> (result: Result<ClientCertificateImport<F, L>, ApiError>)
        ensures
            match result {
                Ok(import) => isImport(self@, import),
                Err(error) => error@ == uploadError() && (self@.name is None || self@.format is None
                    || self@.locations is None || self@.certificateBytes is None),
            },
    {
        let name = match self.name {
            Some(name) => name,
            None => return Err(invalidClientCertificateRequest()),
        };
        let format = match self.format {
            Some(format) => format,
            None => return Err(invalidClientCertificateRequest()),
        };
        let locations = match self.locations {
            Some(locations) => locations,
            None => return Err(invalidClientCertificateRequest()),
        };
        let certificateBytes = match self.certificateBytes {
            Some(bytes) => bytes,
            None => return Err(invalidClientCertificateRequest()),
        };
        let enabled = match self.enabled {
            Some(enabled) => enabled,
            None => true,
        };
        Ok(
            ClientCertificateImport {
                name,
                format,
                enabled,
                locations,
                certificateBytes,
                keyBytes: self.keyBytes,
                password: self.password,
            },
        )
    }
}

// ---------------------------------------------------------------------------
// The root certificate
// ---------------------------------------------------------------------------

/// The forms in which the root certificate can be downloaded.
#[derive(Clone, Copy, Debug, PartialEq, Eq, Structural)]
pub enum RootCertificateFormat {
    Pem,
    Cer,
}

/// How a downloaded certificate is described.
#[derive(Debug)]
pub struct CertificateDownload {
    pub contentType: &'static str,
    pub disposition: String,
}

/// Describes a downloaded certificate.
pub fn exportSslRoot(format: RootCertificateFormat) -> (result: CertificateDownload)
    ensures
        result.contentType@ == match format {
            RootCertificateFormat::Pem => "application/x-pem-file"@,
            RootCertificateFormat::Cer => "application/pkix-cert"@,
        },
        result.disposition@ == "attachment; filename=\""@ + (match format {
            RootCertificateFormat::Pem => "root.pem"@,
            RootCertificateFormat::Cer => "root.cer"@,
        }) + "\""@,
{
    match format {
        RootCertificateFormat::Pem => CertificateDownload {
            contentType: "application/x-pem-file",
            disposition: concatThree("attachment; filename=\"", "root.pem", "\""),
        },
        RootCertificateFormat::Cer => CertificateDownload {
            contentType: "application/pkix-cert",
            disposition: concatThree("attachment; filename=\"", "root.cer", "\""),
        },
    }
}

/// What a client can mend is a bad request, an identity that is not there is not found, and any other failure is
/// told by its code alone.
pub proof fn lawCertificateFailuresAreTold(error: SslMitmError)
    ensures
        sslOperationError(error).status == 404 <==> error is ClientCertificateNotFound,
        sslOperationError(error).status == 500 <==> error is Other,
        sslOperationError(error).status == 400 <==> !(error is ClientCertificateNotFound || error
            is Other),
        error matches SslMitmError::Other(code) ==> sslOperationError(error) == errorWith(
            plainError(500, ErrorCode::SslOperationFailed),
            "sslCode"@,
            code@,
        ),
        !(error is Other) ==> sslOperationError(error).code == ErrorCode::InvalidSslConfiguration,
{
}

/// A part of an upload is admitted under its own name and up to its own size.
pub proof fn lawPartsKeepTheirSizes(size: nat)
    ensures
        isAdmitted("name"@, size, CertificateField::Name) <==> size <= 320,
        isAdmitted("format"@, size, CertificateField::Format) <==> size <= 32,
        isAdmitted("enabled"@, size, CertificateField::Enabled) <==> size <= 8,
        isAdmitted("locations"@, size, CertificateField::Locations) <==> size <= 64 * 1024,
        isAdmitted("certificate"@, size, CertificateField::Certificate) <==> size <= 8 * 1024 * 1024,
        isAdmitted("privateKey"@, size, CertificateField::PrivateKey) <==> size <= 8 * 1024 * 1024,
        isAdmitted("password"@, size, CertificateField::Password) <==> size <= 4096,
{
}

/// A part changes its own field alone, to what it holds, and takes the place of one that came before.
pub proof fn lawPartChangesItsField<F, L>(
    fields: FieldsView<F, L>,
    bytes: Vec<u8>,
    format: F,
    locations: L,
)
    ensures
        takenField(fields, CertificateField::Certificate, FieldValue::Bytes(bytes)) == Some(
            FieldsView { certificateBytes: Some(bytes@), ..fields },
        ),
        takenField(fields, CertificateField::PrivateKey, FieldValue::Bytes(bytes)) == Some(
            FieldsView { keyBytes: Some(bytes@), ..fields },
        ),
        takenField(fields, CertificateField::Format, FieldValue::Format(Some(format))) == Some(
            FieldsView { format: Some(format), ..fields },
        ),
        takenField(fields, CertificateField::Locations, FieldValue::Locations(Some(locations)))
            == Some(FieldsView { locations: Some(locations), ..fields }),
        valid_utf8(bytes@) && bytes@.len() <= 320 ==> takenField(
            fields,
            CertificateField::Name,
            FieldValue::Bytes(bytes),
        ) == Some(FieldsView { name: Some(decode_utf8(bytes@)), ..fields }),
        valid_utf8(bytes@) && bytes@.len() <= 4096 ==> takenField(
            fields,
            CertificateField::Password,
            FieldValue::Bytes(bytes),
        ) == Some(FieldsView { password: decode_utf8(bytes@), ..fields }),
        !valid_utf8(bytes@) || bytes@.len() > 4096 ==> takenField(
            fields,
            CertificateField::Password,
            FieldValue::Bytes(bytes),
        ) is None,
        switchOf(bytes@) matches Some(enabled) ==> takenField(
            fields,
            CertificateField::Enabled,
            FieldValue::Bytes(bytes),
        ) == Some(FieldsView { enabled: Some(enabled), ..fields }),
        switchOf(bytes@) is None ==> takenField(
            fields,
            CertificateField::Enabled,
            FieldValue::Bytes(bytes),
        ) is None,
        takenField(fields, CertificateField::Format, FieldValue::Format(None)) is None,
        takenField(fields, CertificateField::Locations, FieldValue::Locations(None)) is None,
{
}

/// A switch says `true` or `false`, with blanks around it or none, and nothing else.
pub proof fn lawSwitchSaysTrueOrFalse(before: Seq<u8>, after: Seq<u8>)
    requires
        forall|i: int| 0 <= i < before.len() ==> #[trigger] before[i] == 0x20,
        forall|i: int| 0 <= i < after.len() ==> #[trigger] after[i] == 0x20,
    ensures
        switchOf(before + seq![0x74u8, 0x72u8, 0x75u8, 0x65u8] + after) == Some(true),
        switchOf(before + seq![0x66u8, 0x61u8, 0x6Cu8, 0x73u8, 0x65u8] + after) == Some(false),
        switchOf(before) is None,
{
    let yes = seq![0x74u8, 0x72u8, 0x75u8, 0x65u8];
    let no = seq![0x66u8, 0x61u8, 0x6Cu8, 0x73u8, 0x65u8];
    assert(isWordAmongBlanks(before + yes + after, yes)) by {
        lemmaWordIsFound(before, yes, after);
    }
    assert(isWordAmongBlanks(before + no + after, no)) by {
        lemmaWordIsFound(before, no, after);
    }
    assert(!isWordAmongBlanks(before + no + after, yes)) by {
        assert((no + after)[0] == 0x66u8 && yes[0] == 0x74u8);
        lemmaWordBegins(before, no + after, yes);
        assert(before + (no + after) =~= before + no + after);
    }
    assert(!isWordAmongBlanks(before, yes)) by {
        lemmaBlanksHoldNoWord(before, yes);
    }
    assert(!isWordAmongBlanks(before, no)) by {
        lemmaBlanksHoldNoWord(before, no);
    }
    lemmaSwitchWords(before + yes + after);
    lemmaSwitchWords(before + no + after);
    lemmaSwitchWords(before);
}

proof fn lemmaSwitchWords(bytes: Seq<u8>)
    ensures
        ({
            let yes = isWordAmongBlanks(bytes, seq![0x74u8, 0x72u8, 0x75u8, 0x65u8]);
            let no = isWordAmongBlanks(bytes, seq![0x66u8, 0x61u8, 0x6Cu8, 0x73u8, 0x65u8]);
            &&& yes ==> switchOf(bytes) == Some(true)
            &&& !yes && no ==> switchOf(bytes) == Some(false)
            &&& !yes && !no ==> switchOf(bytes) is None
        }),
{
}

proof fn lemmaWordIsFound(before: Seq<u8>, word: Seq<u8>, after: Seq<u8>)
    requires
        forall|i: int| 0 <= i < before.len() ==> #[trigger] before[i] == 0x20,
        forall|i: int| 0 <= i < after.len() ==> #[trigger] after[i] == 0x20,
    ensures
        isWordAmongBlanks(before + word + after, word),
{
    reveal(isWordAmongBlanks);
    let bytes = before + word + after;
    let start = before.len() as int;
    assert(bytes.take(start) =~= before);
    assert(bytes.subrange(start, start + word.len()) =~= word);
    assert(bytes.skip(start + word.len()) =~= after);
    assert(areBlanks(bytes.take(start)));
}

proof fn lemmaWordBegins(before: Seq<u8>, rest: Seq<u8>, word: Seq<u8>)
    requires
        forall|i: int| 0 <= i < before.len() ==> #[trigger] before[i] == 0x20,
        rest.len() > 0,
        word.len() > 0,
        rest[0] > 0x20,
        word[0] > 0x20,
        rest[0] != word[0],
    ensures
        !isWordAmongBlanks(before + rest, word),
{
    reveal(isWordAmongBlanks);
    let bytes = before + rest;
    let start = before.len() as int;
    if isWordAmongBlanks(bytes, word) {
        let at = choose|at: int|
            0 <= at && at + word.len() <= bytes.len() && areBlanks(#[trigger] bytes.take(at))
                && bytes.subrange(at, at + word.len()) == word && areBlanks(
                bytes.skip(at + word.len()),
            );
        assert(bytes.subrange(at, at + word.len())[0] == bytes[at]);
        assert(bytes[start] == rest[0]);
        if at > start {
            assert(bytes.take(at)[start] == rest[0]);
        } else if at < start {
            assert(bytes[at] == before[at]);
        }
    }
}

proof fn lemmaBlanksHoldNoWord(blanks: Seq<u8>, word: Seq<u8>)
    requires
        forall|i: int| 0 <= i < blanks.len() ==> #[trigger] blanks[i] == 0x20,
        word.len() > 0,
        word[0] > 0x20,
    ensures
        !isWordAmongBlanks(blanks, word),
{
    reveal(isWordAmongBlanks);
    if isWordAmongBlanks(blanks, word) {
        let at = choose|at: int|
            0 <= at && at + word.len() <= blanks.len() && areBlanks(#[trigger] blanks.take(at))
                && blanks.subrange(at, at + word.len()) == word && areBlanks(
                blanks.skip(at + word.len()),
            );
        assert(blanks.subrange(at, at + word.len())[0] == blanks[at]);
    }
}

/// An identity is imported as it was uploaded, and is on unless the upload says otherwise.
pub proof fn lawIdentityIsImportedAsUploaded<F, L>(
    fields: FieldsView<F, L>,
    import: ClientCertificateImport<F, L>,
)
    requires
        isImport(fields, import),
    ensures
        fields.name == Some(import.name@) && fields.format == Some(import.format),
        fields.locations == Some(import.locations),
        fields.certificateBytes == Some(import.certificateBytes@),
        import.enabled <==> fields.enabled != Some(false),
        fields.password == import.password@,
        fields.keyBytes is Some <==> import.keyBytes is Some,
        import.keyBytes matches Some(key) ==> fields.keyBytes == Some(key@),
{
}

/// An upload that is wrong is the client's mistake.
pub proof fn lawWrongUploadIsRefused()
    ensures
        uploadError().status == 400,
        uploadError().code == ErrorCode::InvalidSslConfiguration,
        uploadError().params.len() == 0,
{
}

} // verus!
