//! Byte encodings: hexadecimal, base64, digests and random bytes.

use base64::Engine;
use rand::RngCore;
use sha2::Digest;
use vstd::prelude::*;

verus! {

// ---------------------------------------------------------------------------
// Hexadecimal
// ---------------------------------------------------------------------------

/// The lower-case hexadecimal digit of a number below sixteen.
pub open spec fn hexDigit(value: int) -> char {
    if value < 10 {
        (48 + value) as char
    } else {
        (87 + value) as char
    }
}

/// Bytes as pairs of lower-case hexadecimal digits.
pub open spec fn hexText(bytes: Seq<u8>) -> Seq<char>
    decreases bytes.len(),
{
    if bytes.len() == 0 {
        Seq::empty()
    } else {
        hexText(bytes.drop_last()).push(hexDigit(bytes.last() as int / 16)).push(
            hexDigit(bytes.last() as int % 16),
        )
    }
}

/// The value of a hexadecimal digit of either case.
pub open spec fn hexValue(c: char) -> Option<int> {
    if '0' <= c && c <= '9' {
        Some(c as int - 48)
    } else if 'a' <= c && c <= 'f' {
        Some(c as int - 87)
    } else if 'A' <= c && c <= 'F' {
        Some(c as int - 55)
    } else {
        None
    }
}

/// Whether bytes are hexadecimal digits only.
pub open spec fn isHex(text: Seq<u8>) -> bool {
    forall|i: int| 0 <= i < text.len() ==> hexValue(#[trigger] text[i] as char) is Some
}

/// The bytes that pairs of hexadecimal digits write.
pub open spec fn hexBytes(text: Seq<u8>) -> Option<Seq<u8>> {
    if isHex(text) && text.len() % 2 == 0 {
        Some(
            Seq::new(
                text.len() / 2,
                |i: int|
                    (hexValue(text[2 * i] as char)->0 * 16 + hexValue(
                        text[2 * i + 1] as char,
                    )->0) as u8,
            ),
        )
    } else {
        None
    }
}

/// Writes bytes as lower-case hexadecimal digits.
///
/// Trusted: `hex::encode` writes each byte as two lower-case digits, the high half first.
#[verifier::external_body]
pub(crate) fn encodeHex(bytes: &[u8]) -> (result: String)
    ensures
        result@ == hexText(bytes@),
{
    hex::encode(bytes)
}

/// Reads bytes from hexadecimal digits.
///
/// Trusted: `hex::decode` accepts exactly the texts of even length whose characters are all
/// hexadecimal digits of either case, and gives the byte of each pair.
#[verifier::external_body]
pub(crate) fn decodeHex(text: &[u8]) -> (result: Option<Vec<u8>>)
    ensures
        match result {
            Some(bytes) => hexBytes(text@) == Some(bytes@),
            None => hexBytes(text@) is None,
        },
{
    hex::decode(text).ok()
}

// ---------------------------------------------------------------------------
// Base64
// ---------------------------------------------------------------------------

/// Bytes in the standard base64 alphabet, padded.
pub uninterp spec fn base64Text(bytes: Seq<u8>) -> Seq<char>;

/// The bytes that a padded standard base64 text writes.
pub uninterp spec fn base64Bytes(text: Seq<char>) -> Option<Seq<u8>>;

/// Bytes in the URL-safe base64 alphabet, without padding.
pub uninterp spec fn base64UrlText(bytes: Seq<u8>) -> Seq<char>;

/// The characters of the URL-safe alphabet.
pub open spec fn isBase64UrlChar(c: char) -> bool {
    crate::text::isAsciiAlphanumeric(c) || c == '-' || c == '_'
}

/// Writes bytes as padded standard base64.
///
/// Trusted: `base64` with `STANDARD`. The text depends on the bytes alone, holds four characters
/// for every three bytes begun, and reads back as the same bytes.
#[verifier::external_body]
pub(crate) fn encodeBase64(bytes: &[u8]) -> (result: String)
    ensures
        result@ == base64Text(bytes@),
        result@.len() == (bytes@.len() + 2) / 3 * 4,
        base64Bytes(result@) == Some(bytes@),
{
    base64::engine::general_purpose::STANDARD.encode(bytes)
}

/// Reads padded standard base64.
///
/// Trusted: `base64` with `STANDARD`. The result depends on the text alone.
#[verifier::external_body]
pub(crate) fn decodeBase64(text: &str) -> (result: Option<Vec<u8>>)
    ensures
        match result {
            Some(bytes) => base64Bytes(text@) == Some(bytes@),
            None => base64Bytes(text@) is None,
        },
{
    base64::engine::general_purpose::STANDARD.decode(text).ok()
}

/// Writes bytes as URL-safe base64 without padding.
///
/// Trusted: `base64` with `URL_SAFE_NO_PAD`. The text depends on the bytes alone, stays within the
/// URL-safe alphabet and holds four characters for every three bytes, plus two or three for what
/// is left.
#[verifier::external_body]
pub(crate) fn encodeBase64Url(bytes: &[u8]) -> (result: String)
    ensures
        result@ == base64UrlText(bytes@),
        result@.len() == bytes@.len() / 3 * 4 + if bytes@.len() % 3 == 0 {
            0
        } else {
            bytes@.len() % 3 + 1
        },
        forall|i: int| 0 <= i < result@.len() ==> isBase64UrlChar(#[trigger] result@[i]),
{
    base64::engine::general_purpose::URL_SAFE_NO_PAD.encode(bytes)
}

// ---------------------------------------------------------------------------
// Digests and randomness
// ---------------------------------------------------------------------------

/// The SHA-256 digest of bytes.
pub uninterp spec fn sha256(bytes: Seq<u8>) -> Seq<u8>;

/// Digests bytes with SHA-256.
///
/// Trusted: `sha2::Sha256::digest`. The digest depends on the bytes alone and has 32 bytes.
#[verifier::external_body]
pub(crate) fn digestSha256(bytes: &[u8]) -> (result: Vec<u8>)
    ensures
        result@ == sha256(bytes@),
        result@.len() == 32,
{
    sha2::Sha256::digest(bytes).to_vec()
}

/// Thirty-two unpredictable bytes.
///
/// Trusted: `rand`'s thread generator and `RngCore::fill_bytes`, which fills the whole buffer.
/// Nothing is claimed of the values.
#[verifier::external_body]
pub(crate) fn randomBytes() -> (result: Vec<u8>)
    ensures
        result@.len() == 32,
{
    let mut bytes = [0u8; 32];
    rand::rng().fill_bytes(&mut bytes);
    bytes.to_vec()
}

/// Bytes are written as two lower-case digits each, the higher one first, and the values of those digits are the
/// byte's.
pub proof fn lawHexIsReadBack(bytes: Seq<u8>)
    ensures
        hexText(bytes).len() == 2 * bytes.len(),
        forall|i: int|
            0 <= i < bytes.len() ==> {
                &&& hexValue(#[trigger] hexText(bytes)[2 * i]) == Some(bytes[i] as int / 16)
                &&& hexValue(hexText(bytes)[2 * i + 1]) == Some(bytes[i] as int % 16)
            },
        forall|i: int|
            0 <= i < 2 * bytes.len() ==> '0' <= #[trigger] hexText(bytes)[i] <= '9' || 'a'
                <= hexText(bytes)[i] <= 'f',
    decreases bytes.len(),
{
    if bytes.len() > 0 {
        let front = bytes.drop_last();
        lawHexIsReadBack(front);
        assert forall|i: int| 0 <= i < bytes.len() implies {
            &&& hexValue(#[trigger] hexText(bytes)[2 * i]) == Some(bytes[i] as int / 16)
            &&& hexValue(hexText(bytes)[2 * i + 1]) == Some(bytes[i] as int % 16)
        } by {
            if i < front.len() {
                assert(hexText(bytes)[2 * i] == hexText(front)[2 * i]);
                assert(hexText(bytes)[2 * i + 1] == hexText(front)[2 * i + 1]);
            }
        }
        assert forall|i: int| 0 <= i < 2 * bytes.len() implies '0' <= #[trigger] hexText(bytes)[i]
            <= '9' || 'a' <= hexText(bytes)[i] <= 'f' by {
            if i < 2 * front.len() {
                assert(hexText(bytes)[i] == hexText(front)[i]);
            }
        }
    }
}

/// A text of hexadecimal digits, of either case, gives a byte for every two of them; any other text gives none.
pub proof fn lawHexPairsAreBytes(text: Seq<u8>, i: int)
    ensures
        hexBytes(text) is Some ==> text.len() % 2 == 0 && hexBytes(text)->0.len() == text.len() / 2,
        text.len() % 2 == 1 ==> hexBytes(text) is None,
        0 <= i < text.len() && !(48 <= text[i] <= 57 || 65 <= text[i] <= 70 || 97 <= text[i] <= 102)
            ==> hexBytes(text) is None,
        hexBytes(text) is Some && 0 <= i < text.len() / 2 && text[2 * i] <= 57 && text[2 * i + 1] <= 57
            ==> hexBytes(text)->0[i] == (text[2 * i] - 48) * 16 + (text[2 * i + 1] - 48),
        hexBytes(text) is Some && 0 <= i < text.len() / 2 && text[2 * i] >= 97 && text[2 * i + 1] >= 97
            ==> hexBytes(text)->0[i] == (text[2 * i] - 87) * 16 + (text[2 * i + 1] - 87),
        hexBytes(text) is Some && 0 <= i < text.len() / 2 && 65 <= text[2 * i] <= 70 && 65 <= text[2 * i + 1] <= 70
            ==> hexBytes(text)->0[i] == (text[2 * i] - 55) * 16 + (text[2 * i + 1] - 55),
        (forall|k: int|
            0 <= k < text.len() ==> 48 <= #[trigger] text[k] <= 57 || 65 <= text[k] <= 70 || 97
                <= text[k] <= 102) && text.len() % 2 == 0 ==> hexBytes(text) is Some,
{
    if 0 <= i < text.len() {
        assert(hexValue(text[i] as char) is Some ==> (48 <= text[i] <= 57 || 65 <= text[i] <= 70 || 97
            <= text[i] <= 102));
    }
    if hexBytes(text) is Some && 0 <= i < text.len() / 2 {
        assert(hexValue(text[2 * i] as char) is Some);
        assert(hexValue(text[2 * i + 1] as char) is Some);
    }
}

/// The characters of the address-safe code are letters, digits, the hyphen and the underscore.
pub proof fn lawAddressSafeCharacters(c: char)
    ensures
        isBase64UrlChar(c) <==> 'a' <= c <= 'z' || 'A' <= c <= 'Z' || '0' <= c <= '9' || c == '-' || c
            == '_',
{
}

} // verus!
