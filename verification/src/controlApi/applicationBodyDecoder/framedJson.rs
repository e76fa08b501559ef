//! The application protocol that hides JSON in encrypted blocks.

use crate::controlApi::applicationBodyDecoder::contentCoding::{bytesView, copyBytes};
use crate::encoding::{decodeHex, hexBytes};
use crate::text::{
    asciiLowerText, asciiLowered, equalText, indexOf, lawFirstPieceEndsAtSeparator, lemmaIndexOf,
    splitOn, splitText, startsWith, startsWithText, trimText, trimmed, views,
};
use aes::cipher::{BlockCipherDecrypt, KeyInit};
use vstd::prelude::*;

verus! {

/// The size of a block and of the key in bytes.
pub const blockBytes: usize = 16;

/// The key of the protocol, `e82ckenh8dichen8`.
pub open spec fn protocolKey() -> Seq<u8> {
    seq![101u8, 56, 50, 99, 107, 101, 110, 104, 56, 100, 105, 99, 104, 101, 110, 56]
}

/// What separates the parts of a frame, `-36cd479b6b5-`.
pub open spec fn frameDelimiter() -> Seq<u8> {
    seq![45u8, 51, 54, 99, 100, 52, 55, 57, 98, 54, 98, 53, 45]
}

fn keyBytes() -> (result: Vec<u8>)
    ensures
        result@ == protocolKey(),
{
    let key: Vec<u8> = vec![
        101u8, 56, 50, 99, 107, 101, 110, 104, 56, 100, 105, 99, 104, 101, 110, 56,
    ];
    assert(key@ == protocolKey());
    key
}

fn delimiterBytes() -> (result: Vec<u8>)
    ensures
        result@ == frameDelimiter(),
{
    let delimiter: Vec<u8> = vec![45u8, 51, 54, 99, 100, 52, 55, 57, 98, 54, 98, 53, 45];
    assert(delimiter@ == frameDelimiter());
    delimiter
}

// ---------------------------------------------------------------------------
// Blocks
// ---------------------------------------------------------------------------

/// One block, decrypted with a key.
pub uninterp spec fn aesBlock(key: Seq<u8>, block: Seq<u8>) -> Seq<u8>;

/// Decrypts one block.
///
/// Trusted: `aes::Aes128` and `decrypt_block`. The block depends on the key and the block alone and
/// keeps its size.
#[verifier::external_body]
pub(crate) fn decryptBlock(key: &[u8], block: &[u8]) -> (result: Vec<u8>)
    requires
        key@.len() == 16,
        block@.len() == 16,
    ensures
        result@ == aesBlock(key@, block@),
        result@.len() == 16,
{
    let key: [u8; 16] = key.try_into().expect("key of one block");
    let mut block: [u8; 16] = block.try_into().expect("one block");
    aes::Aes128::new((&key).into()).decrypt_block((&mut block).into());
    block.to_vec()
}

/// Whole blocks, each decrypted by itself.
pub open spec fn decryptedBlocks(key: Seq<u8>, bytes: Seq<u8>) -> Seq<u8>
    decreases bytes.len(),
{
    if bytes.len() < 16 {
        Seq::empty()
    } else {
        aesBlock(key, bytes.take(16)) + decryptedBlocks(key, bytes.skip(16))
    }
}

/// The bytes before a padding whose every byte tells its length, one to sixteen.
pub open spec fn withoutPadding(bytes: Seq<u8>) -> Option<Seq<u8>> {
    if bytes.len() == 0 {
        None
    } else {
        let count = bytes.last() as int;
        if count == 0 || count > blockBytes || count > bytes.len() || exists|i: int|
            bytes.len() - count <= i < bytes.len() && #[trigger] bytes[i] != count {
            None
        } else {
            Some(bytes.take(bytes.len() - count))
        }
    }
}

/// Removes the padding of decrypted bytes.
pub fn removePadding(bytes: &Vec<u8>) -> (result: Option<Vec<u8>>)
    ensures
        bytesView(result) == withoutPadding(bytes@),
{
    if bytes.len() == 0 {
        return None;
    }
    let padding: u8 = bytes[bytes.len() - 1];
    let count: usize = padding as usize;
    if count == 0 || count > blockBytes || count > bytes.len() {
        return None;
    }
    let end: usize = bytes.len() - count;
    let mut i: usize = end;
    while i < bytes.len()
        invariant
            end <= i <= bytes.len(),
            bytes.len() > 0,
            count == bytes@.last(),
            padding as usize == count,
            0 < count <= blockBytes,
            count <= bytes.len(),
            end == bytes.len() - count,
            forall|k: int| end <= k < i ==> #[trigger] bytes@[k] == count,
        decreases bytes.len() - i,
    {
        if bytes[i] != padding {
            assert(bytes@[i as int] != count);
            return None;
        }
        i += 1;
    }
    let mut result: Vec<u8> = Vec::new();
    let mut k: usize = 0;
    while k < end
        invariant
            k <= end <= bytes.len(),
            result@ == bytes@.take(k as int),
        decreases end - k,
    {
        result.push(bytes[k]);
        k += 1;
        assert(result@ == bytes@.take(k as int));
    }
    Some(result)
}

/// Padded bytes give back what was padded.
pub proof fn lawPaddingIsRemoved(message: Seq<u8>, count: u8)
    requires
        1 <= count <= 16,
    ensures
        withoutPadding(message + Seq::new(count as nat, |i: int| count)) == Some(message),
{
    let padded = message + Seq::new(count as nat, |i: int| count);
    assert(padded.last() == count);
    assert(padded.take(padded.len() - count) == message);
}

/// What encrypted bytes hold: whole blocks, at least one, with a sound padding.
pub open spec fn decryptedMessage(bytes: Seq<u8>) -> Option<Seq<u8>> {
    if bytes.len() == 0 || bytes.len() % 16 != 0 {
        None
    } else {
        withoutPadding(decryptedBlocks(protocolKey(), bytes))
    }
}

/// Decrypts bytes.
pub fn decryptAes128EcbPkcs7(encrypted: &Vec<u8>) -> (result: Option<Vec<u8>>)
    ensures
        bytesView(result) == decryptedMessage(encrypted@),
{
    if encrypted.len() == 0 || encrypted.len() % 16 != 0 {
        return None;
    }
    let key = keyBytes();
    let mut plain: Vec<u8> = Vec::new();
    let mut at: usize = 0;
    assert(encrypted@.skip(0) == encrypted@);
    while at < encrypted.len()
        invariant
            at <= encrypted.len(),
            (encrypted.len() - at) % 16 == 0,
            key@ == protocolKey(),
            plain@ + decryptedBlocks(protocolKey(), encrypted@.skip(at as int)) == decryptedBlocks(
                protocolKey(),
                encrypted@,
            ),
        decreases encrypted.len() - at,
    {
        let ghost rest = encrypted@.skip(at as int);
        let mut block: Vec<u8> = Vec::new();
        let mut i: usize = 0;
        while i < 16
            invariant
                i <= 16,
                at + 16 <= encrypted.len(),
                block@ == encrypted@.subrange(at as int, at + i),
            decreases 16 - i,
        {
            block.push(encrypted[at + i]);
            i += 1;
            assert(block@ == encrypted@.subrange(at as int, at + i));
        }
        assert(block@ == rest.take(16));
        let mut decrypted = decryptBlock(key.as_slice(), block.as_slice());
        let ghost before = plain@;
        let ghost one = decrypted@;
        plain.append(&mut decrypted);
        assert(rest.skip(16) == encrypted@.skip(at + 16));
        assert(before + (one + decryptedBlocks(protocolKey(), rest.skip(16))) == plain@
            + decryptedBlocks(protocolKey(), rest.skip(16)));
        at += 16;
    }
    assert(decryptedBlocks(protocolKey(), encrypted@.skip(at as int)) == Seq::<u8>::empty());
    assert(plain@ == decryptedBlocks(protocolKey(), encrypted@));
    removePadding(&plain)
}

// ---------------------------------------------------------------------------
// Frames
// ---------------------------------------------------------------------------

/// Whether a pattern stands at a place.
pub open spec fn standsAt(source: Seq<u8>, pattern: Seq<u8>, at: int) -> bool {
    at + pattern.len() <= source.len() && source.subrange(at, at + pattern.len()) == pattern
}

/// The first place at or behind `from` where a pattern stands.
pub open spec fn placeOfBytes(source: Seq<u8>, pattern: Seq<u8>, from: int) -> Option<int>
    decreases source.len() - from,
{
    if pattern.len() == 0 || from < 0 || from + pattern.len() > source.len() {
        None
    } else if standsAt(source, pattern, from) {
        Some(from)
    } else {
        placeOfBytes(source, pattern, from + 1)
    }
}

/// The first place at or behind `from` where a pattern stands.
pub fn findBytes(source: &Vec<u8>, pattern: &Vec<u8>, from: usize) -> (result: Option<usize>)
    requires
        from <= source.len(),
    ensures
        match result {
            Some(at) => placeOfBytes(source@, pattern@, from as int) == Some(at as int),
            None => placeOfBytes(source@, pattern@, from as int) is None,
        },
{
    if pattern.len() == 0 {
        return None;
    }
    let mut at: usize = from;
    while pattern.len() <= source.len() - at
        invariant
            from <= at <= source.len(),
            pattern.len() > 0,
            placeOfBytes(source@, pattern@, from as int) == placeOfBytes(
                source@,
                pattern@,
                at as int,
            ),
        decreases source.len() - at,
    {
        let mut i: usize = 0;
        let mut same = true;
        while i < pattern.len() && same
            invariant
                i <= pattern.len(),
                at + pattern.len() <= source.len(),
                same ==> forall|k: int| 0 <= k < i ==> source@[at + k] == pattern@[k],
                !same ==> exists|k: int| 0 <= k < pattern@.len() && source@[at + k] != pattern@[k],
            decreases pattern.len() - i,
        {
            if source[at + i] != pattern[i] {
                same = false;
                assert(source@[at + i as int] != pattern@[i as int]);
            }
            i += 1;
        }
        if same {
            assert(source@.subrange(at as int, at + pattern@.len()) == pattern@);
            return Some(at);
        }
        proof {
            let k = choose|k: int| 0 <= k < pattern@.len() && source@[at + k] != pattern@[k];
            assert(source@.subrange(at as int, at + pattern@.len())[k] != pattern@[k]);
        }
        at += 1;
    }
    None
}

proof fn lemmaPlaceOfBytes(source: Seq<u8>, pattern: Seq<u8>, from: int, at: int)
    requires
        pattern.len() > 0,
        0 <= from <= at,
        standsAt(source, pattern, at),
        forall|k: int| from <= k < at ==> !#[trigger] standsAt(source, pattern, k),
    ensures
        placeOfBytes(source, pattern, from) == Some(at),
    decreases at - from,
{
    if from < at {
        assert(!standsAt(source, pattern, from));
        lemmaPlaceOfBytes(source, pattern, from + 1, at);
    }
}

/// The hexadecimal digits of either case, as bytes.
pub open spec fn isHexByte(byte: u8) -> bool {
    (48 <= byte && byte <= 57) || (65 <= byte && byte <= 70) || (97 <= byte && byte <= 102)
}

/// Where the JSON stands in a frame: between two delimiters, behind a part that is not empty and in
/// front of thirty-two hexadecimal digits.
pub open spec fn framedRange(plain: Seq<u8>) -> Option<(int, int)> {
    match placeOfBytes(plain, frameDelimiter(), 0) {
        None => None,
        Some(first) => {
            let start = first + frameDelimiter().len();
            match placeOfBytes(plain, frameDelimiter(), start) {
                None => None,
                Some(end) => {
                    let digest = plain.skip(end + frameDelimiter().len());
                    if first == 0 || digest.len() != 32 || exists|i: int|
                        0 <= i < digest.len() && !isHexByte(#[trigger] digest[i]) {
                        None
                    } else {
                        Some((start, end))
                    }
                },
            }
        },
    }
}

/// Where the JSON stands in a frame.
pub fn findFramedJson(plain: &Vec<u8>) -> (result: Option<(usize, usize)>)
    ensures
        match result {
            Some(range) => framedRange(plain@) == Some((range.0 as int, range.1 as int))
                && range.0 <= range.1 <= plain@.len(),
            None => framedRange(plain@) is None,
        },
{
    let delimiter = delimiterBytes();
    let first: usize = match findBytes(plain, &delimiter, 0) {
        Some(at) => at,
        None => return None,
    };
    proof {
        lemmaPlaceBounds(plain@, delimiter@, 0);
        assert(first + delimiter@.len() <= plain.len());
    }
    let start: usize = first + delimiter.len();
    let end: usize = match findBytes(plain, &delimiter, start) {
        Some(at) => at,
        None => return None,
    };
    proof {
        lemmaPlaceBounds(plain@, delimiter@, start as int);
    }
    let digestStart: usize = end + delimiter.len();
    let ghost digest = plain@.skip(digestStart as int);
    if first == 0 || plain.len() - digestStart != 32 {
        return None;
    }
    let mut i: usize = digestStart;
    while i < plain.len()
        invariant
            digestStart <= i <= plain.len(),
            digest == plain@.skip(digestStart as int),
            framedRange(plain@) == (if exists|k: int|
                0 <= k < digest.len() && !isHexByte(#[trigger] digest[k]) {
                None::<(int, int)>
            } else {
                Some((start as int, end as int))
            }),
            forall|k: int| 0 <= k < i - digestStart ==> isHexByte(#[trigger] digest[k]),
        decreases plain.len() - i,
    {
        let byte: u8 = plain[i];
        if !((48 <= byte && byte <= 57) || (65 <= byte && byte <= 70) || (97 <= byte && byte
            <= 102)) {
            assert(!isHexByte(digest[i - digestStart]));
            return None;
        }
        assert(digest[i - digestStart] == byte);
        i += 1;
    }
    Some((start, end))
}

proof fn lemmaPlaceBounds(source: Seq<u8>, pattern: Seq<u8>, from: int)
    requires
        0 <= from,
    ensures
        placeOfBytes(source, pattern, from) matches Some(at) ==> from <= at && at + pattern.len()
            <= source.len(),
    decreases source.len() - from,
{
    if !(pattern.len() == 0 || from + pattern.len() > source.len()) && !standsAt(
        source,
        pattern,
        from,
    ) {
        lemmaPlaceBounds(source, pattern, from + 1);
    }
}

/// A frame gives back its JSON: a path that is not empty, a delimiter, the JSON, a delimiter and a
/// digest, where no delimiter stands earlier than these two.
pub proof fn lawFrameGivesItsJson(path: Seq<u8>, json: Seq<u8>, digest: Seq<u8>)
    requires
        path.len() > 0,
        digest.len() == 32,
        forall|i: int| 0 <= i < 32 ==> isHexByte(#[trigger] digest[i]),
        ({
            let frame = path + frameDelimiter() + json + frameDelimiter() + digest;
            let start = path.len() + frameDelimiter().len();
            &&& forall|k: int|
                0 <= k < path.len() ==> !#[trigger] standsAt(frame, frameDelimiter(), k)
            &&& forall|k: int|
                start <= k < start + json.len() ==> !#[trigger] standsAt(
                    frame,
                    frameDelimiter(),
                    k,
                )
        }),
    ensures
        ({
            let frame = path + frameDelimiter() + json + frameDelimiter() + digest;
            framedRange(frame) matches Some(range) && frame.subrange(range.0, range.1) == json
        }),
{
    let delimiter = frameDelimiter();
    let frame = path + delimiter + json + delimiter + digest;
    let first = path.len() as int;
    let start = first + delimiter.len();
    let end = start + json.len();
    assert(frame.subrange(first, first + delimiter.len()) == delimiter);
    assert(standsAt(frame, delimiter, first));
    lemmaPlaceOfBytes(frame, delimiter, 0, first);
    assert(frame.subrange(end, end + delimiter.len()) == delimiter);
    assert(standsAt(frame, delimiter, end));
    lemmaPlaceOfBytes(frame, delimiter, start, end);
    assert(frame.skip(end + delimiter.len()) == digest);
    assert(frame.subrange(start, end) == json);
}

// ---------------------------------------------------------------------------
// JSON
// ---------------------------------------------------------------------------

/// What a JSON text is.
#[derive(Clone, Copy, Debug, PartialEq, Eq, Structural)]
pub enum JsonKind {
    Null,
    Boolean,
    Number,
    Text,
    Array,
    Object,
}

/// What the JSON text in bytes is; `None` where it is none.
pub uninterp spec fn jsonKind(bytes: Seq<u8>) -> Option<JsonKind>;

/// Reads bytes as JSON.
///
/// Trusted: `serde_json::from_slice` into a `Value`, told apart by its variants. The result depends
/// on the bytes alone.
#[verifier::external_body]
pub(crate) fn readJsonKind(bytes: &[u8]) -> (result: Option<JsonKind>)
    ensures
        result == jsonKind(bytes@),
{
    Some(match serde_json::from_slice::<serde_json::Value>(bytes).ok()? {
        serde_json::Value::Null => JsonKind::Null,
        serde_json::Value::Bool(_) => JsonKind::Boolean,
        serde_json::Value::Number(_) => JsonKind::Number,
        serde_json::Value::String(_) => JsonKind::Text,
        serde_json::Value::Array(_) => JsonKind::Array,
        serde_json::Value::Object(_) => JsonKind::Object,
    })
}

/// Whether bytes hold more than a scalar.
pub open spec fn isContainer(kind: Option<JsonKind>) -> bool {
    kind == Some(JsonKind::Object) || kind == Some(JsonKind::Array)
}

/// Whether JSON text is an object or an array.
pub fn checkContainer(kind: Option<JsonKind>) -> (result: bool)
    ensures
        result == isContainer(kind),
{
    match kind {
        Some(JsonKind::Object) | Some(JsonKind::Array) => true,
        _ => false,
    }
}

/// Bytes that hold an object or an array.
pub open spec fn containerBytes(bytes: Seq<u8>) -> Option<Seq<u8>> {
    if isContainer(jsonKind(bytes)) {
        Some(bytes)
    } else {
        None
    }
}

/// Keeps bytes that hold an object or an array.
pub fn validateJson(bytes: Vec<u8>) -> (result: Option<Vec<u8>>)
    ensures
        bytesView(result) == containerBytes(bytes@),
{
    let kind = readJsonKind(bytes.as_slice());
    if checkContainer(kind) {
        Some(bytes)
    } else {
        None
    }
}

/// The JSON in a frame.
pub open spec fn framedJson(plain: Seq<u8>) -> Option<Seq<u8>> {
    match framedRange(plain) {
        Some(range) => containerBytes(plain.subrange(range.0, range.1)),
        None => None,
    }
}

/// The JSON in a frame.
pub fn extractFramedJson(plain: &Vec<u8>) -> (result: Option<Vec<u8>>)
    ensures
        bytesView(result) == framedJson(plain@),
{
    match findFramedJson(plain) {
        None => None,
        Some((start, end)) => {
            let mut json: Vec<u8> = Vec::new();
            let mut i: usize = start;
            while i < end
                invariant
                    start <= i <= end <= plain.len(),
                    json@ == plain@.subrange(start as int, i as int),
                decreases end - i,
            {
                json.push(plain[i]);
                i += 1;
                assert(json@ == plain@.subrange(start as int, i as int));
            }
            validateJson(json)
        },
    }
}

// ---------------------------------------------------------------------------
// Where encrypted bytes stand
// ---------------------------------------------------------------------------

/// The parts of a form between ampersands; never none.
pub open spec fn formFields(body: Seq<u8>) -> Seq<Seq<u8>>
    decreases body.len(),
{
    if body.len() == 0 {
        seq![Seq::<u8>::empty()]
    } else {
        let before = formFields(body.drop_last());
        if body.last() == 38 {
            before.push(Seq::<u8>::empty())
        } else {
            before.drop_last().push(before.last().push(body.last()))
        }
    }
}

/// The bytes of `params=`.
pub open spec fn parameterPrefix() -> Seq<u8> {
    seq![112u8, 97, 114, 97, 109, 115, 61]
}

/// Whether a part of a form is the parameter.
pub open spec fn isParameter(field: Seq<u8>) -> bool {
    field.len() >= 7 && field.take(7) == parameterPrefix()
}

/// The values of the parameter in a form.
pub open spec fn parameterValues(fields: Seq<Seq<u8>>) -> Seq<Seq<u8>>
    decreases fields.len(),
{
    if fields.len() == 0 {
        Seq::empty()
    } else {
        let before = parameterValues(fields.drop_last());
        if isParameter(fields.last()) {
            before.push(fields.last().skip(7))
        } else {
            before
        }
    }
}

/// The encrypted bytes of a form: the one value of the parameter, in hexadecimal digits.
pub open spec fn formPayload(contentType: Seq<char>, body: Seq<u8>) -> Option<Seq<u8>> {
    let values = parameterValues(formFields(body));
    if !startsWith(asciiLowered(contentType), "application/x-www-form-urlencoded"@) || values.len()
        != 1 || values[0].len() == 0 {
        None
    } else {
        hexBytes(values[0])
    }
}

spec fn byteViews(parts: Seq<Vec<u8>>) -> Seq<Seq<u8>> {
    parts.map_values(|part: Vec<u8>| part@)
}

fn splitForm(body: &Vec<u8>) -> (result: Vec<Vec<u8>>)
    ensures
        byteViews(result@) == formFields(body@),
{
    let mut done: Vec<Vec<u8>> = Vec::new();
    let mut current: Vec<u8> = Vec::new();
    let mut i: usize = 0;
    assert(byteViews(done@).push(current@) == formFields(body@.take(0)));
    while i < body.len()
        invariant
            i <= body.len(),
            byteViews(done@).push(current@) == formFields(body@.take(i as int)),
        decreases body.len() - i,
    {
        let ghost before = formFields(body@.take(i as int));
        assert(body@.take(i + 1).drop_last() == body@.take(i as int));
        assert(before.drop_last() == byteViews(done@));
        if body[i] == 38 {
            let ghost parts = byteViews(done@);
            let ghost part = current@;
            done.push(current);
            current = Vec::new();
            assert(byteViews(done@) == parts.push(part));
        } else {
            current.push(body[i]);
        }
        i += 1;
    }
    assert(body@.take(i as int) == body@);
    let ghost parts = byteViews(done@);
    let ghost part = current@;
    done.push(current);
    assert(byteViews(done@) == parts.push(part));
    done
}

fn isParameterField(field: &Vec<u8>) -> (result: bool)
    ensures
        result == isParameter(field@),
{
    if field.len() < 7 {
        return false;
    }
    let same = field[0] == 112 && field[1] == 97 && field[2] == 114 && field[3] == 97 && field[4]
        == 109 && field[5] == 115 && field[6] == 61;
    if same {
        assert(field@.take(7) == parameterPrefix());
    } else {
        assert(field@.take(7)[0] == field@[0] && field@.take(7)[1] == field@[1] && field@.take(7)[2]
            == field@[2] && field@.take(7)[3] == field@[3] && field@.take(7)[4] == field@[4]
            && field@.take(7)[5] == field@[5] && field@.take(7)[6] == field@[6]);
    }
    same
}

/// The encrypted bytes of a form.
pub fn encryptedFormParameter(contentType: &str, body: &Vec<u8>) -> (result: Option<Vec<u8>>)
    ensures
        bytesView(result) == formPayload(contentType@, body@),
{
    let lowered = asciiLowerText(contentType);
    if !startsWithText(lowered.as_str(), "application/x-www-form-urlencoded") {
        return None;
    }
    let fields = splitForm(body);
    let ghost all = formFields(body@);
    let mut values: Vec<Vec<u8>> = Vec::new();
    let mut i: usize = 0;
    assert(all.take(0).len() == 0);
    assert(byteViews(values@) == Seq::<Seq<u8>>::empty());
    while i < fields.len()
        invariant
            i <= fields.len(),
            all == formFields(body@),
            byteViews(fields@) == all,
            byteViews(values@) == parameterValues(all.take(i as int)),
        decreases fields.len() - i,
    {
        assert(all.take(i + 1).drop_last() == all.take(i as int));
        assert(all.take(i + 1).last() == fields@[i as int]@);
        if isParameterField(&fields[i]) {
            let field = &fields[i];
            let mut value: Vec<u8> = Vec::new();
            let mut k: usize = 7;
            while k < field.len()
                invariant
                    7 <= k <= field.len(),
                    value@ == field@.subrange(7, k as int),
                decreases field.len() - k,
            {
                value.push(field[k]);
                k += 1;
                assert(value@ == field@.subrange(7, k as int));
            }
            assert(value@ == field@.skip(7));
            let ghost before = values@;
            let ghost added = value@;
            values.push(value);
            assert(byteViews(values@) == byteViews(before).push(added));
        }
        i += 1;
    }
    assert(all.take(i as int) == all);
    if values.len() != 1 {
        return None;
    }
    assert(parameterValues(all)[0] == values@[0]@);
    if values[0].len() == 0 {
        return None;
    }
    decodeHex(values[0].as_slice())
}

/// The media type in front of a content type's parameters, in lower case.
pub open spec fn mediaType(contentType: Seq<char>) -> Seq<char> {
    asciiLowered(trimmed(splitOn(contentType, ';')[0]))
}

/// Whether a response may be encrypted, by its content type.
pub open spec fn mayBeEncrypted(contentType: Seq<char>) -> bool {
    let media = mediaType(contentType);
    ||| media.len() == 0
    ||| media == "application/json"@
    ||| media == "application/octet-stream"@
    ||| startsWith(media, "text/"@)
}

/// Whether a response may be encrypted, by its content type.
pub fn isPotentialEncryptedResponse(contentType: &str) -> (result: bool)
    ensures
        result == mayBeEncrypted(contentType@),
{
    let parts = splitText(contentType, ';');
    assert(views(parts@)[0] == parts@[0]@);
    let head = trimText(parts[0].as_str());
    let media = asciiLowerText(head.as_str());
    media.as_str().is_empty() || equalText(media.as_str(), "application/json") || equalText(
        media.as_str(),
        "application/octet-stream",
    ) || startsWithText(media.as_str(), "text/")
}

/// The two sides of a message.
#[derive(Clone, Copy, Debug, PartialEq, Eq, Structural)]
pub enum MessageSide {
    Request,
    Response,
}

/// The encrypted bytes of a body: the parameter of a request's form, or a response as it is.
pub open spec fn encryptedPart(
    side: MessageSide,
    contentType: Seq<char>,
    bytes: Seq<u8>,
) -> Option<Seq<u8>> {
    match side {
        MessageSide::Request => formPayload(contentType, bytes),
        MessageSide::Response => if mayBeEncrypted(contentType) {
            Some(bytes)
        } else {
            None
        },
    }
}

/// The JSON that decrypted bytes hold: framed in a request, bare in a response.
pub open spec fn plainJson(side: MessageSide, plain: Seq<u8>) -> Option<Seq<u8>> {
    match side {
        MessageSide::Request => framedJson(plain),
        MessageSide::Response => containerBytes(plain),
    }
}

/// The JSON that a body hides.
pub open spec fn hiddenJson(
    side: MessageSide,
    contentType: Seq<char>,
    bytes: Seq<u8>,
) -> Option<Seq<u8>> {
    match encryptedPart(side, contentType, bytes) {
        None => None,
        Some(encrypted) => match decryptedMessage(encrypted) {
            None => None,
            Some(plain) => plainJson(side, plain),
        },
    }
}

/// The JSON that a body hides.
pub fn decodeKnownApplicationProtocol(
    side: MessageSide,
    contentType: &str,
    bytes: &Vec<u8>,
) -> (result: Option<Vec<u8>>)
    ensures
        bytesView(result) == hiddenJson(side, contentType@, bytes@),
{
    let encrypted = match side {
        MessageSide::Request => match encryptedFormParameter(contentType, bytes) {
            Some(encrypted) => encrypted,
            None => return None,
        },
        MessageSide::Response => {
            if !isPotentialEncryptedResponse(contentType) {
                return None;
            }
            copyBytes(bytes)
        },
    };
    match decryptAes128EcbPkcs7(&encrypted) {
        None => None,
        Some(plain) => match side {
            MessageSide::Request => extractFramedJson(&plain),
            MessageSide::Response => validateJson(plain),
        },
    }
}

/// Padding tells its own length: what is taken off are one to sixteen bytes, each of them that number, and
/// where there are no such bytes nothing can be read.
pub proof fn lawPaddingTellsItsLength(bytes: Seq<u8>)
    ensures
        match withoutPadding(bytes) {
            Some(message) => {
                let count = bytes.len() - message.len();
                &&& 1 <= count <= 16
                &&& message == bytes.take(message.len() as int)
                &&& forall|i: int| message.len() <= i < bytes.len() ==> #[trigger] bytes[i] == count
            },
            None => bytes.len() == 0 || !(1 <= bytes.last() <= 16 && bytes.last() <= bytes.len()
                && forall|i: int|
                bytes.len() - bytes.last() <= i < bytes.len() ==> #[trigger] bytes[i]
                    == bytes.last()),
        },
{
}

/// Blocks are decrypted one by one with the key of the protocol, and only whole blocks can be.
pub proof fn lawBlocksAreDecryptedOneByOne(key: Seq<u8>, block: Seq<u8>, rest: Seq<u8>)
    requires
        block.len() == 16,
    ensures
        decryptedBlocks(key, Seq::empty()) == Seq::<u8>::empty(),
        decryptedBlocks(key, block + rest) == aesBlock(key, block) + decryptedBlocks(key, rest),
        rest.len() % 16 != 0 ==> decryptedMessage(rest) is None,
        rest.len() > 0 && rest.len() % 16 == 0 ==> decryptedMessage(rest) == withoutPadding(
            decryptedBlocks(protocolKey(), rest),
        ),
        protocolKey().len() == 16 && forall|i: int|
            0 <= i < 16 ==> #[trigger] protocolKey()[i] == "e82ckenh8dichen8"@[i] as u8,
        frameDelimiter().len() == 13 && forall|i: int|
            0 <= i < 13 ==> #[trigger] frameDelimiter()[i] == "-36cd479b6b5-"@[i] as u8,
{
    assert((block + rest).take(16) =~= block);
    assert((block + rest).skip(16) =~= rest);
    reveal_strlit("e82ckenh8dichen8");
    reveal_strlit("-36cd479b6b5-");
}

/// A form hands over the one field of parameters that it holds, as the bytes that it writes in hexadecimal;
/// what other fields stand behind it does not matter, and in another form or without a value there is none.
pub proof fn lawFormHandsOverItsParameters(
    contentType: Seq<char>,
    body: Seq<u8>,
    value: Seq<u8>,
    other: Seq<u8>,
)
    requires
        !value.contains(38u8) && !other.contains(38u8),
        value.len() > 0,
        other.len() < 7 || other.take(7) != parameterPrefix(),
    ensures
        parameterPrefix().len() == 7 && forall|i: int|
            0 <= i < 7 ==> #[trigger] parameterPrefix()[i] == "params="@[i] as u8,
        startsWith(asciiLowered(contentType), "application/x-www-form-urlencoded"@) ==> formPayload(
            contentType,
            parameterPrefix() + value,
        ) == hexBytes(value),
        !startsWith(asciiLowered(contentType), "application/x-www-form-urlencoded"@)
            ==> formPayload(contentType, body) is None,
        formPayload(contentType, parameterPrefix()) is None,
        formPayload(contentType, body + seq![38u8] + other) == formPayload(contentType, body),
        formPayload(
            contentType,
            parameterPrefix() + value + seq![38u8] + (parameterPrefix() + value),
        ) is None,
{
    reveal_strlit("params=");
    let field = parameterPrefix() + value;
    assert(field.take(7) =~= parameterPrefix());
    assert(field.skip(7) =~= value);
    assert(parameterPrefix().take(7) =~= parameterPrefix());
    assert(!field.contains(38u8)) by {
        if field.contains(38u8) {
            let k = choose|k: int| 0 <= k < field.len() && field[k] == 38u8;
            if k >= 7 {
                assert(value[k - 7] == 38u8);
            }
        }
    }
    lemmaOneField(field);
    lemmaOneField(parameterPrefix());
    lemmaNextField(body, other);
    lemmaNextField(field, field);
    let none = Seq::<Seq<u8>>::empty();
    let one = seq![field];
    assert(one.drop_last() =~= none);
    assert(parameterValues(none) =~= none);
    assert(parameterValues(one) =~= seq![value]);
    let bare = seq![parameterPrefix()];
    assert(bare.drop_last() =~= none);
    assert(parameterPrefix().skip(7) =~= Seq::<u8>::empty());
    assert(parameterValues(bare) =~= seq![Seq::<u8>::empty()]);
    let fields = formFields(body);
    assert(fields.push(other).drop_last() =~= fields);
    let two = one.push(field);
    assert(two.drop_last() =~= one);
    assert(parameterValues(two) =~= seq![value, value]);
    assert(parameterPrefix() + value + seq![38u8] + (parameterPrefix() + value) =~= field + seq![
        38u8,
    ] + field);
}

proof fn lemmaOneField(field: Seq<u8>)
    requires
        !field.contains(38u8),
    ensures
        formFields(field) == seq![field],
    decreases field.len(),
{
    if field.len() > 0 {
        let shorter = field.drop_last();
        assert(!shorter.contains(38u8)) by {
            if shorter.contains(38u8) {
                let k = choose|k: int| 0 <= k < shorter.len() && shorter[k] == 38u8;
                assert(field[k] == 38u8);
            }
        }
        lemmaOneField(shorter);
        assert(field.contains(field.last()));
        assert(shorter.push(field.last()) =~= field);
        assert(formFields(field) =~= seq![field]);
    } else {
        assert(field =~= Seq::<u8>::empty());
    }
}

proof fn lemmaNextField(body: Seq<u8>, field: Seq<u8>)
    requires
        !field.contains(38u8),
    ensures
        formFields(body + seq![38u8] + field) == formFields(body).push(field),
    decreases field.len(),
{
    let whole = body + seq![38u8] + field;
    if field.len() == 0 {
        assert(whole.drop_last() =~= body);
        assert(field =~= Seq::<u8>::empty());
        assert(formFields(whole) =~= formFields(body).push(field));
    } else {
        let shorter = field.drop_last();
        assert(!shorter.contains(38u8)) by {
            if shorter.contains(38u8) {
                let k = choose|k: int| 0 <= k < shorter.len() && shorter[k] == 38u8;
                assert(field[k] == 38u8);
            }
        }
        lemmaNextField(body, shorter);
        assert(field.contains(field.last()));
        assert(whole.drop_last() =~= body + seq![38u8] + shorter);
        let before = formFields(whole.drop_last());
        assert(before.drop_last() =~= formFields(body));
        assert(before.last().push(field.last()) =~= field);
        assert(formFields(whole) =~= formFields(body).push(field));
    }
}

/// An answer may be encrypted where its type says nothing or is plain text, JSON or raw bytes; the case and
/// the parameters of the type do not matter.
pub proof fn lawAnswerTypesThatMayBeEncrypted(contentType: Seq<char>, parameters: Seq<char>)
    requires
        !contentType.contains(';'),
    ensures
        mayBeEncrypted(contentType) <==> {
            let media = asciiLowered(trimmed(contentType));
            media.len() == 0 || media == "application/json"@ || media == "application/octet-stream"@
                || (media.len() >= 5 && media.take(5) == "text/"@)
        },
        mayBeEncrypted(contentType + seq![';'] + parameters) == mayBeEncrypted(contentType),
{
    reveal_strlit("text/");
    let longer = contentType + seq![';'] + parameters;
    lawFirstPieceEndsAtSeparator(contentType, ';');
    lawFirstPieceEndsAtSeparator(longer, ';');
    lemmaIndexOf(contentType, ';');
    lemmaIndexOf(longer, ';');
    let at = indexOf(longer, ';');
    assert(longer[contentType.len() as int] == ';');
    if at < contentType.len() {
        assert(contentType[at] == ';');
    }
    assert(longer.take(at) =~= contentType);
    assert(contentType.take(contentType.len() as int) =~= contentType);
}

/// What is hidden is found: an answer that decrypts to a JSON object or list gives it, a request gives the one
/// between the delimiters of its frame, and nothing else is taken for JSON.
pub proof fn lawHiddenJsonIsFound(contentType: Seq<char>, bytes: Seq<u8>, plain: Seq<u8>)
    ensures
        mayBeEncrypted(contentType) && decryptedMessage(bytes) == Some(plain) ==> hiddenJson(
            MessageSide::Response,
            contentType,
            bytes,
        ) == if jsonKind(plain) == Some(JsonKind::Object) || jsonKind(plain) == Some(
            JsonKind::Array,
        ) {
            Some(plain)
        } else {
            None
        },
        !mayBeEncrypted(contentType) || decryptedMessage(bytes) is None ==> hiddenJson(
            MessageSide::Response,
            contentType,
            bytes,
        ) is None,
        formPayload(contentType, bytes) matches Some(encrypted) ==> hiddenJson(
            MessageSide::Request,
            contentType,
            bytes,
        ) == match decryptedMessage(encrypted) {
            Some(message) => match framedRange(message) {
                Some(range) => if jsonKind(message.subrange(range.0, range.1)) == Some(
                    JsonKind::Object,
                ) || jsonKind(message.subrange(range.0, range.1)) == Some(JsonKind::Array) {
                    Some(message.subrange(range.0, range.1))
                } else {
                    None
                },
                None => None,
            },
            None => None,
        },
        formPayload(contentType, bytes) is None ==> hiddenJson(
            MessageSide::Request,
            contentType,
            bytes,
        ) is None,
{
}

proof fn lemmaPlaceStands(source: Seq<u8>, pattern: Seq<u8>, from: int)
    requires
        0 <= from,
    ensures
        placeOfBytes(source, pattern, from) matches Some(at) ==> from <= at && standsAt(source, pattern, at),
        placeOfBytes(source, pattern, from) matches Some(at) ==> forall|k: int|
            from <= k < at ==> !#[trigger] standsAt(source, pattern, k),
    decreases source.len() - from,
{
    if !(pattern.len() == 0 || from + pattern.len() > source.len()) && !standsAt(
        source,
        pattern,
        from,
    ) {
        lemmaPlaceStands(source, pattern, from + 1);
    }
}

/// JSON is found in a frame only between two delimiters, the first ones there are, behind at least one byte and in
/// front of thirty-two hexadecimal digits, with which the frame ends.
pub proof fn lawFrameHasItsParts(plain: Seq<u8>, i: int)
    requires
        framedRange(plain) is Some,
    ensures
        ({
            let start = framedRange(plain)->Some_0.0;
            let end = framedRange(plain)->Some_0.1;
            &&& 13 < start <= end
            &&& plain.len() == end + 13 + 32
            &&& plain.subrange(start - 13, start) == frameDelimiter()
            &&& plain.subrange(end, end + 13) == frameDelimiter()
            &&& forall|k: int| start <= k < end ==> !#[trigger] standsAt(plain, frameDelimiter(), k)
            &&& end + 13 <= i < plain.len() ==> 48 <= plain[i] <= 57 || 65 <= plain[i] <= 70 || 97
                <= plain[i] <= 102
        }),
{
    let delimiter = frameDelimiter();
    lemmaPlaceStands(plain, delimiter, 0);
    let first = placeOfBytes(plain, delimiter, 0)->0;
    lemmaPlaceStands(plain, delimiter, first + delimiter.len());
    let end = framedRange(plain)->Some_0.1;
    let digest = plain.skip(end + 13);
    assert(delimiter.len() == 13);
    if end + 13 <= i < plain.len() {
        assert(digest[i - end - 13] == plain[i]);
        assert(isHexByte(digest[i - end - 13]));
    }
}

} // verus!
