//! Universally unique identifiers as 128-bit numbers.

use crate::encoding::{hexText, hexValue, lawHexIsReadBack};
use vstd::arithmetic::div_mod::lemma_div_denominator;
use vstd::arithmetic::power::{lemma_pow0, lemma_pow_positive, pow};
use vstd::prelude::*;

verus! {

/// The lowest `count` bytes of a number, most significant first.
pub open spec fn bigEndian(value: nat, count: nat) -> Seq<u8>
    decreases count,
{
    if count == 0 {
        Seq::empty()
    } else {
        bigEndian(value / 256, (count - 1) as nat).push((value % 256) as u8)
    }
}

/// The sixteen bytes of an identifier.
pub open spec fn identifierBytes(id: u128) -> Seq<u8> {
    bigEndian(id as nat, 16)
}

/// An identifier as thirty-two lower-case hexadecimal digits.
pub open spec fn simpleForm(id: u128) -> Seq<char> {
    hexText(identifierBytes(id))
}

/// An identifier in its canonical form: five groups of lower-case hexadecimal digits.
pub open spec fn canonicalForm(id: u128) -> Seq<char> {
    let digits = simpleForm(id);
    digits.subrange(0, 8).push('-') + digits.subrange(8, 12).push('-') + digits.subrange(
        12,
        16,
    ).push('-') + digits.subrange(16, 20).push('-') + digits.subrange(20, 32)
}

/// The identifier that a text writes in one of the accepted forms.
pub uninterp spec fn readIdentifier(text: Seq<char>) -> Option<u128>;

/// Whether an identifier says of itself that it is random: version four, standard variant.
pub open spec fn isRandomIdentifier(id: u128) -> bool {
    (id as nat / 0x1000_0000_0000_0000_0000) % 16 == 4 && (id as nat / 0x4000_0000_0000_0000) % 4
        == 2
}

/// Whether a text is the canonical form of a random identifier.
pub open spec fn isRandomText(text: Seq<char>) -> bool {
    exists|id: u128| isRandomIdentifier(id) && text == #[trigger] canonicalForm(id)
}

/// A fresh random identifier.
///
/// Trusted: `uuid::Uuid::new_v4`, whose result carries version four and the standard variant.
/// Nothing is claimed of the random bits.
#[verifier::external_body]
pub(crate) fn newIdentifier() -> (result: u128)
    ensures
        isRandomIdentifier(result),
{
    uuid::Uuid::new_v4().as_u128()
}

/// The sixteen bytes of an identifier, most significant first.
///
/// Trusted: `uuid::Uuid::as_bytes`, whose bytes are in big-endian order.
#[verifier::external_body]
pub(crate) fn bytesOfIdentifier(id: u128) -> (result: Vec<u8>)
    ensures
        result@ == identifierBytes(id),
{
    uuid::Uuid::from_u128(id).as_bytes().to_vec()
}

/// An identifier as thirty-two hexadecimal digits.
///
/// Trusted: `uuid::Uuid::simple`, which writes the bytes in lower case without separators.
#[verifier::external_body]
pub(crate) fn simpleText(id: u128) -> (result: String)
    ensures
        result@ == simpleForm(id),
{
    uuid::Uuid::from_u128(id).simple().to_string()
}

/// An identifier in its canonical hyphenated form.
///
/// Trusted: `uuid::Uuid`'s display, the hyphenated lower-case form, which `parse_str` reads back.
#[verifier::external_body]
pub(crate) fn canonicalText(id: u128) -> (result: String)
    ensures
        result@ == canonicalForm(id),
        readIdentifier(result@) == Some(id),
{
    uuid::Uuid::from_u128(id).to_string()
}

/// Reads an identifier.
///
/// Trusted: `uuid::Uuid::parse_str`. The result depends on the text alone.
#[verifier::external_body]
pub(crate) fn parseIdentifier(text: &str) -> (result: Option<u128>)
    ensures
        result == readIdentifier(text@),
{
    uuid::Uuid::parse_str(text).ok().map(|id| id.as_u128())
}

/// A fresh random identifier in its canonical form.
pub fn newIdentifierText() -> (result: String)
    ensures
        isRandomText(result@),
{
    canonicalText(newIdentifier())
}

/// Bytes stand highest first: a number's last byte is its remainder by 256, and those before it are the bytes of
/// the rest.
pub proof fn lawLastByteIsLowest(high: nat, low: u8, count: nat)
    ensures
        bigEndian(high * 256 + low as nat, count + 1) == bigEndian(high, count).push(low),
        bigEndian(high, count).len() == count,
    decreases count,
{
    if count > 0 {
        lawLastByteIsLowest(high / 256, (high % 256) as u8, (count - 1) as nat);
    }
    assert((high * 256 + low as nat) / 256 == high);
    assert((high * 256 + low as nat) % 256 == low as nat);
}

/// An identifier has sixteen bytes and is written with thirty-two digits, which the canonical form parts by hyphens
/// into groups of eight, four, four, four and twelve.
pub proof fn lawIdentifierForms(id: u128, i: int)
    ensures
        identifierBytes(id).len() == 16,
        simpleForm(id).len() == 32,
        canonicalForm(id).len() == 36,
        canonicalForm(id)[8] == '-' && canonicalForm(id)[13] == '-' && canonicalForm(id)[18] == '-'
            && canonicalForm(id)[23] == '-',
        0 <= i < 8 ==> canonicalForm(id)[i] == simpleForm(id)[i],
        8 <= i < 12 ==> canonicalForm(id)[i + 1] == simpleForm(id)[i],
        12 <= i < 16 ==> canonicalForm(id)[i + 2] == simpleForm(id)[i],
        16 <= i < 20 ==> canonicalForm(id)[i + 3] == simpleForm(id)[i],
        20 <= i < 32 ==> canonicalForm(id)[i + 4] == simpleForm(id)[i],
{
    lawLastByteIsLowest(id as nat, 0, 16);
    lawHexIsReadBack(identifierBytes(id));
}

/// The byte that stands so many places before the last one counts that power of 256.
pub proof fn lawByteCountsItsPower(value: nat, count: nat, k: nat)
    requires
        k < count,
    ensures
        bigEndian(value, count)[count - 1 - k] == (value as int / pow(256, k)) % 256,
    decreases k,
{
    lawLastByteIsLowest(value / 256, (value % 256) as u8, (count - 1) as nat);
    assert(bigEndian(value, count) == bigEndian(value / 256, (count - 1) as nat).push(
        (value % 256) as u8,
    ));
    if k == 0 {
        lemma_pow0(256);
    } else {
        lawByteCountsItsPower(value / 256, (count - 1) as nat, (k - 1) as nat);
        reveal(pow);
        lemma_pow_positive(256, (k - 1) as nat);
        lemma_div_denominator(value as int, 256, pow(256, (k - 1) as nat));
    }
}

proof fn lemmaHighHalves(value: nat)
    ensures
        (value as int / 0x100_0000_0000_0000_0000) % 256 / 16 == (value as int
            / 0x1000_0000_0000_0000_0000) % 16,
        (value as int / 0x100_0000_0000_0000) % 256 / 64 == (value as int / 0x4000_0000_0000_0000) % 4,
{
    let sixth = value as int / 0x100_0000_0000_0000_0000;
    lemma_div_denominator(value as int, 0x100_0000_0000_0000_0000, 16);
    assert(value as int / 0x1000_0000_0000_0000_0000 == sixth / 16);
    assert(sixth % 256 / 16 == (sixth / 16) % 16);
    let eighth = value as int / 0x100_0000_0000_0000;
    lemma_div_denominator(value as int, 0x100_0000_0000_0000, 64);
    assert(value as int / 0x4000_0000_0000_0000 == eighth / 64);
    assert(eighth % 256 / 64 == (eighth / 64) % 4);
}

proof fn lemmaPowersOfByte()
    ensures
        pow(256, 7) == 0x100_0000_0000_0000,
        pow(256, 9) == 0x100_0000_0000_0000_0000,
{
    reveal(pow);
    reveal_with_fuel(pow, 10);
}

/// The canonical form of a random identifier shows its version, four, and its variant.
pub proof fn lawRandomIdentifierShows(id: u128)
    requires
        isRandomIdentifier(id),
    ensures
        hexValue(canonicalForm(id)[14]) == Some(4int),
        hexValue(canonicalForm(id)[19]) is Some,
        8 <= hexValue(canonicalForm(id)[19])->0 < 12,
{
    lawIdentifierForms(id, 12);
    lawIdentifierForms(id, 16);
    let bytes = identifierBytes(id);
    lawHexIsReadBack(bytes);
    lawByteCountsItsPower(id as nat, 16, 9);
    lawByteCountsItsPower(id as nat, 16, 7);
    lemmaPowersOfByte();
    lemmaHighHalves(id as nat);
    assert(hexText(bytes)[2 * 6int] == simpleForm(id)[12]);
    assert(hexText(bytes)[2 * 8int] == simpleForm(id)[16]);
    assert(bytes[6] as int / 16 == 4);
    assert(bytes[8] as int / 64 == 2);
}

/// The text of a random identifier has thirty-six characters, four hyphens at their places, and a four as its
/// version.
pub proof fn lawRandomTextShows(text: Seq<char>)
    requires
        isRandomText(text),
    ensures
        text.len() == 36,
        text[8] == '-' && text[13] == '-' && text[18] == '-' && text[23] == '-',
        hexValue(text[14]) == Some(4int),
        hexValue(text[19]) is Some && 8 <= hexValue(text[19])->0 < 12,
{
    let id = choose|id: u128| isRandomIdentifier(id) && text == #[trigger] canonicalForm(id);
    lawIdentifierForms(id, 0);
    lawRandomIdentifierShows(id);
}

} // verus!
