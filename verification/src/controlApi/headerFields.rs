//! HTTP header collections: the fields of an `http::HeaderMap` in the order in which it is walked.

use crate::controlApi::headerText::isHeaderValue;
use crate::text::{asciiLowered, copyText, optionalView, textFromBytes};
use vstd::prelude::*;
use vstd::utf8::{decode_utf8, encode_utf8, valid_utf8};

verus! {

/// Characters of a token: letters, digits and a few signs.
pub open spec fn isTokenChar(c: char) -> bool {
    ||| crate::text::isAsciiAlphanumeric(c)
    ||| c == '!'
    ||| c == '#'
    ||| c == '$'
    ||| c == '%'
    ||| c == '&'
    ||| c == '\''
    ||| c == '*'
    ||| c == '+'
    ||| c == '-'
    ||| c == '.'
    ||| c == '^'
    ||| c == '_'
    ||| c == '`'
    ||| c == '|'
    ||| c == '~'
}

/// One token character or more.
pub open spec fn isToken(text: Seq<char>) -> bool {
    text.len() > 0 && forall|i: int| 0 <= i < text.len() ==> isTokenChar(#[trigger] text[i])
}

/// Whether a text names a header.
pub open spec fn isHeaderName(text: Seq<char>) -> bool {
    isToken(text) && text.len() <= 65535
}

/// A field: its name in lower case and the bytes of its value.
pub type FieldView = (Seq<char>, Seq<u8>);

#[verifier::external_type_specification]
#[verifier::external_body]
#[verifier::reject_recursive_types(T)]
pub struct ExHeaderMap<T>(http::HeaderMap<T>);

#[verifier::external_type_specification]
#[verifier::external_body]
pub struct ExHeaderValue(http::HeaderValue);

/// The fields of a collection, in the order in which it is walked.
pub uninterp spec fn headerFields(headers: http::HeaderMap<http::HeaderValue>) -> Seq<
    (Seq<char>, Seq<u8>),
>;

/// Whether some field has a name.
pub open spec fn hasField(fields: Seq<FieldView>, name: Seq<char>) -> bool {
    exists|i: int| 0 <= i < fields.len() && (#[trigger] fields[i]).0 == name
}

/// The fields with one more: behind the last field of the same name, or at the end.
pub open spec fn fieldAppended(
    fields: Seq<FieldView>,
    name: Seq<char>,
    value: Seq<u8>,
) -> Seq<FieldView>
    decreases fields.len(),
{
    if fields.len() == 0 || fields.last().0 == name || !hasField(fields, name) {
        fields.push((name, value))
    } else {
        fieldAppended(fields.drop_last(), name, value).push(fields.last())
    }
}

/// The fields without those of a name.
pub open spec fn fieldsWithout(fields: Seq<FieldView>, name: Seq<char>) -> Seq<FieldView>
    decreases fields.len(),
{
    if fields.len() == 0 {
        Seq::empty()
    } else if fields.last().0 == name {
        fieldsWithout(fields.drop_last(), name)
    } else {
        fieldsWithout(fields.drop_last(), name).push(fields.last())
    }
}

/// The fields with a single one of a name: in place of the first, or at the end.
pub open spec fn fieldReplaced(
    fields: Seq<FieldView>,
    name: Seq<char>,
    value: Seq<u8>,
) -> Seq<FieldView>
    decreases fields.len(),
{
    if fields.len() == 0 {
        seq![(name, value)]
    } else if fields[0].0 == name {
        seq![(name, value)] + fieldsWithout(fields.drop_first(), name)
    } else {
        seq![fields[0]] + fieldReplaced(fields.drop_first(), name, value)
    }
}

/// The value of the first field of a name.
pub open spec fn firstField(fields: Seq<FieldView>, name: Seq<char>) -> Option<Seq<u8>>
    decreases fields.len(),
{
    if fields.len() == 0 {
        None
    } else if fields[0].0 == name {
        Some(fields[0].1)
    } else {
        firstField(fields.drop_first(), name)
    }
}

/// Whether a text is an HTTP method.
///
/// Trusted: `http::Method::from_str` accepts exactly the tokens, and keeps them as they are.
#[verifier::external_body]
pub(crate) fn isHttpMethod(text: &str) -> (result: bool)
    ensures
        result == isToken(text@),
{
    text.parse::<http::Method>().is_ok()
}

/// Whether a text names a header.
///
/// Trusted: `http::HeaderName::from_str` accepts exactly the tokens of at most 65535 bytes.
#[verifier::external_body]
pub(crate) fn isValidHeaderName(text: &str) -> (result: bool)
    ensures
        result == isHeaderName(text@),
{
    text.parse::<http::HeaderName>().is_ok()
}

/// No fields.
///
/// Trusted: `http::HeaderMap::new`.
#[verifier::external_body]
pub(crate) fn emptyHeaders() -> (result: http::HeaderMap<http::HeaderValue>)
    ensures
        headerFields(result) == Seq::<(Seq<char>, Seq<u8>)>::empty(),
{
    http::HeaderMap::new()
}

/// Adds a field behind those of the same name.
///
/// Trusted: `http::HeaderMap::append`. Names are kept in lower case. A new name comes last, a known
/// one gets its value behind its others. The collection panics only past 32768 slots, which 1024
/// fields never take.
#[verifier::external_body]
pub(crate) fn appendHeader(
    headers: &mut http::HeaderMap<http::HeaderValue>,
    name: &str,
    value: &str,
)
    requires
        isHeaderName(name@),
        isHeaderValue(value@),
        headerFields(*old(headers)).len() <= 1024,
    ensures
        headerFields(*final(headers)) == fieldAppended(
            headerFields(*old(headers)),
            asciiLowered(name@),
            encode_utf8(value@),
        ),
{
    let name = name.parse::<http::HeaderName>().expect("header name");
    let value = http::HeaderValue::from_str(value).expect("header value");
    headers.append(name, value);
}

/// Makes a field the only one of its name.
///
/// Trusted: `http::HeaderMap::insert`. A known name keeps its place and loses its other values, a
/// new one comes last. The same bound as for `append` holds.
#[verifier::external_body]
pub(crate) fn replaceHeader(
    headers: &mut http::HeaderMap<http::HeaderValue>,
    name: &str,
    value: &str,
)
    requires
        isHeaderName(name@),
        isHeaderValue(value@),
        headerFields(*old(headers)).len() <= 1024,
    ensures
        headerFields(*final(headers)) == fieldReplaced(
            headerFields(*old(headers)),
            asciiLowered(name@),
            encode_utf8(value@),
        ),
{
    let name = name.parse::<http::HeaderName>().expect("header name");
    let value = http::HeaderValue::from_str(value).expect("header value");
    headers.insert(name, value);
}

/// The value of the first field of a name.
///
/// Trusted: `http::HeaderMap::get`, looked up without regard to case.
#[verifier::external_body]
pub(crate) fn findHeader(headers: &http::HeaderMap<http::HeaderValue>, name: &str) -> (result:
    Option<Vec<u8>>)
    requires
        isHeaderName(name@),
    ensures
        match result {
            Some(bytes) => firstField(headerFields(*headers), asciiLowered(name@)) == Some(bytes@),
            None => firstField(headerFields(*headers), asciiLowered(name@)) is None,
        },
{
    headers.get(name).map(|value| value.as_bytes().to_vec())
}

/// A field as text.
#[derive(Debug)]
pub struct HeaderField {
    pub name: String,
    pub value: String,
}

/// The texts of fields.
pub open spec fn fieldTexts(fields: Seq<HeaderField>) -> Seq<(Seq<char>, Seq<char>)> {
    fields.map_values(|field: HeaderField| (field.name@, field.value@))
}

/// Independent copies of fields.
pub fn copyFields(fields: &Vec<HeaderField>) -> (result: Vec<HeaderField>)
    ensures
        fieldTexts(result@) == fieldTexts(fields@),
{
    let mut result: Vec<HeaderField> = Vec::new();
    let mut i: usize = 0;
    while i < fields.len()
        invariant
            i <= fields.len(),
            fieldTexts(result@) == fieldTexts(fields@).take(i as int),
        decreases fields.len() - i,
    {
        let ghost before = result@;
        result.push(
            HeaderField {
                name: copyText(fields[i].name.as_str()),
                value: copyText(fields[i].value.as_str()),
            },
        );
        i += 1;
        assert(fieldTexts(result@) == fieldTexts(before).push(fieldTexts(fields@)[i - 1]));
        assert(fieldTexts(result@) == fieldTexts(fields@).take(i as int));
    }
    assert(fieldTexts(fields@).take(i as int) == fieldTexts(fields@));
    result
}

/// The values of the fields of a name, in their order.
pub open spec fn valuesNamed(fields: Seq<FieldView>, name: Seq<char>) -> Seq<Seq<u8>>
    decreases fields.len(),
{
    if fields.len() == 0 {
        Seq::empty()
    } else {
        let before = valuesNamed(fields.drop_last(), name);
        if fields.last().0 == name {
            before.push(fields.last().1)
        } else {
            before
        }
    }
}

/// The bytes of values.
pub open spec fn valueBytes(values: Seq<Vec<u8>>) -> Seq<Seq<u8>> {
    values.map_values(|value: Vec<u8>| value@)
}

/// The values of all fields of a name, in their order.
///
/// Trusted: `http::HeaderMap::get_all`, looked up without regard to case.
#[verifier::external_body]
pub(crate) fn findHeaders(headers: &http::HeaderMap<http::HeaderValue>, name: &str) -> (result: Vec<
    Vec<u8>,
>)
    requires
        isHeaderName(name@),
    ensures
        valueBytes(result@) == valuesNamed(headerFields(*headers), asciiLowered(name@)),
{
    headers.get_all(name).iter().map(|value| value.as_bytes().to_vec()).collect()
}

/// The visible ASCII bytes and the tab.
pub open spec fn isVisibleByte(byte: u8) -> bool {
    (32 <= byte && byte < 127) || byte == 9
}

/// The text of a header value, where all of it is visible ASCII.
pub open spec fn readableText(bytes: Seq<u8>) -> Option<Seq<char>> {
    if forall|i: int| 0 <= i < bytes.len() ==> isVisibleByte(#[trigger] bytes[i]) {
        Some(decode_utf8(bytes))
    } else {
        None
    }
}

/// The text of a header value, where all of it is visible ASCII.
pub fn readText(bytes: &[u8]) -> (result: Option<String>)
    ensures
        optionalView(result) == readableText(bytes@),
{
    let mut i: usize = 0;
    while i < bytes.len()
        invariant
            i <= bytes.len(),
            forall|k: int| 0 <= k < i ==> isVisibleByte(#[trigger] bytes@[k]),
        decreases bytes.len() - i,
    {
        let byte: u8 = bytes[i];
        if !((32 <= byte && byte < 127) || byte == 9) {
            assert(!isVisibleByte(bytes@[i as int]));
            return None;
        }
        i += 1;
    }
    proof {
        lemmaVisibleIsUtf8(bytes@);
    }
    textFromBytes(bytes)
}

proof fn lemmaVisibleIsUtf8(bytes: Seq<u8>)
    requires
        forall|i: int| 0 <= i < bytes.len() ==> isVisibleByte(#[trigger] bytes[i]),
    ensures
        valid_utf8(bytes),
    decreases bytes.len(),
{
    if bytes.len() > 0 {
        let rest = vstd::utf8::pop_first_scalar(bytes);
        let first = bytes[0];
        assert(isVisibleByte(first));
        assert(first & 0x80 == 0) by (bit_vector)
            requires
                (32 <= first && first < 127) || first == 9,
        ;
        assert(vstd::utf8::is_leading_byte_width_1(first));
        assert(vstd::utf8::valid_first_scalar(bytes));
        assert(rest == bytes.subrange(1, bytes.len() as int));
        assert forall|i: int| 0 <= i < rest.len() implies isVisibleByte(#[trigger] rest[i]) by {
            assert(rest[i] == bytes[i + 1]);
        }
        lemmaVisibleIsUtf8(rest);
    }
}

/// Texts that may be missing.
pub open spec fn readings(values: Seq<Option<String>>) -> Seq<Option<Seq<char>>> {
    values.map_values(|value: Option<String>| optionalView(value))
}

/// The texts of the fields of a name, in their order; nothing stands for a value that cannot be read.
pub open spec fn textsNamed(fields: Seq<FieldView>, name: Seq<char>) -> Seq<Option<Seq<char>>> {
    valuesNamed(fields, name).map_values(|bytes: Seq<u8>| readableText(bytes))
}

/// The texts of all fields of a name, in their order.
pub fn headerTexts(headers: &http::HeaderMap<http::HeaderValue>, name: &str) -> (result: Vec<
    Option<String>,
>)
    requires
        isHeaderName(name@),
    ensures
        readings(result@) == textsNamed(headerFields(*headers), asciiLowered(name@)),
{
    let values = findHeaders(headers, name);
    let ghost wanted = textsNamed(headerFields(*headers), asciiLowered(name@));
    let mut result: Vec<Option<String>> = Vec::new();
    let mut i: usize = 0;
    while i < values.len()
        invariant
            i <= values.len(),
            wanted == valueBytes(values@).map_values(|bytes: Seq<u8>| readableText(bytes)),
            readings(result@) == wanted.take(i as int),
        decreases values.len() - i,
    {
        let ghost before = result@;
        let text = readText(values[i].as_slice());
        assert(wanted[i as int] == readableText(valueBytes(values@)[i as int]));
        assert(valueBytes(values@)[i as int] == values@[i as int]@);
        result.push(text);
        assert(readings(result@) == readings(before).push(wanted[i as int]));
        i += 1;
        assert(readings(result@) == wanted.take(i as int));
    }
    assert(wanted.take(i as int) == wanted);
    result
}

/// One field as plain values.
#[derive(Debug)]
pub struct RawField {
    pub name: String,
    pub value: Vec<u8>,
}

/// The values of fields.
pub open spec fn rawViews(fields: Seq<RawField>) -> Seq<FieldView> {
    fields.map_values(|field: RawField| (field.name@, field.value@))
}

/// All fields, in the order in which the collection is walked.
///
/// Trusted: `http::HeaderMap::iter`.
#[verifier::external_body]
pub(crate) fn listFields(headers: &http::HeaderMap<http::HeaderValue>) -> (result: Vec<RawField>)
    ensures
        rawViews(result@) == headerFields(*headers),
{
    headers.iter().map(
        |(name, value)| RawField {
            name: name.as_str().to_owned(),
            value: value.as_bytes().to_vec(),
        },
    ).collect()
}

proof fn lemmaFieldsWithout(fields: Seq<FieldView>, name: Seq<char>)
    ensures
        !hasField(fieldsWithout(fields, name), name),
        fieldsWithout(fields, name).len() <= fields.len(),
    decreases fields.len(),
{
    if fields.len() > 0 {
        lemmaFieldsWithout(fields.drop_last(), name);
    }
}

/// How many fields have a name.
pub open spec fn countField(fields: Seq<FieldView>, name: Seq<char>) -> nat
    decreases fields.len(),
{
    if fields.len() == 0 {
        0
    } else {
        countField(fields.drop_first(), name) + if fields[0].0 == name {
            1nat
        } else {
            0
        }
    }
}

proof fn lemmaCountAbsent(fields: Seq<FieldView>, name: Seq<char>)
    requires
        !hasField(fields, name),
    ensures
        countField(fields, name) == 0,
    decreases fields.len(),
{
    if fields.len() > 0 {
        assert(fields[0].0 != name);
        let rest = fields.drop_first();
        assert(!hasField(rest, name)) by {
            if hasField(rest, name) {
                let i = choose|i: int| 0 <= i < rest.len() && (#[trigger] rest[i]).0 == name;
                assert(fields[i + 1].0 == name);
            }
        }
        lemmaCountAbsent(rest, name);
    }
}

/// After a replacement exactly one field has the name, and it has the new value.
pub proof fn lawReplacedFieldIsSingle(fields: Seq<FieldView>, name: Seq<char>, value: Seq<u8>)
    ensures
        countField(fieldReplaced(fields, name, value), name) == 1,
        firstField(fieldReplaced(fields, name, value), name) == Some(value),
        fieldReplaced(fields, name, value).len() <= fields.len() + 1,
    decreases fields.len(),
{
    let result = fieldReplaced(fields, name, value);
    if fields.len() == 0 {
        assert(result.drop_first() == Seq::<FieldView>::empty());
        assert(countField(result.drop_first(), name) == 0);
    } else if fields[0].0 == name {
        let others = fieldsWithout(fields.drop_first(), name);
        lemmaFieldsWithout(fields.drop_first(), name);
        lemmaCountAbsent(others, name);
        assert(result.drop_first() == others);
    } else {
        lawReplacedFieldIsSingle(fields.drop_first(), name, value);
        assert(result.drop_first() == fieldReplaced(fields.drop_first(), name, value));
    }
}

/// Adding a field adds exactly one.
pub proof fn lawAppendAddsOneField(fields: Seq<FieldView>, name: Seq<char>, value: Seq<u8>)
    ensures
        fieldAppended(fields, name, value).len() == fields.len() + 1,
    decreases fields.len(),
{
    if fields.len() > 0 && fields.last().0 != name && hasField(fields, name) {
        lawAppendAddsOneField(fields.drop_last(), name, value);
    }
}

/// An added value comes behind the earlier values of its name, and changes those of no other name.
pub proof fn lawAddedValueComesLast(
    fields: Seq<FieldView>,
    name: Seq<char>,
    value: Seq<u8>,
    other: Seq<char>,
)
    ensures
        valuesNamed(fieldAppended(fields, name, value), name) == valuesNamed(fields, name).push(
            value,
        ),
        other != name ==> valuesNamed(fieldAppended(fields, name, value), other) == valuesNamed(
            fields,
            other,
        ),
    decreases fields.len(),
{
    let result = fieldAppended(fields, name, value);
    if fields.len() == 0 || fields.last().0 == name || !hasField(fields, name) {
        assert(result.drop_last() == fields);
    } else {
        lawAddedValueComesLast(fields.drop_last(), name, value, other);
        assert(result.drop_last() == fieldAppended(fields.drop_last(), name, value));
    }
}

/// A replacement changes the values of its own name alone.
pub proof fn lawReplacingKeepsOtherValues(
    fields: Seq<FieldView>,
    name: Seq<char>,
    value: Seq<u8>,
    other: Seq<char>,
)
    requires
        other != name,
    ensures
        valuesNamed(fieldReplaced(fields, name, value), other) == valuesNamed(fields, other),
    decreases fields.len(),
{
    if fields.len() == 0 {
        lemmaValuesAfterFirst(seq![(name, value)], other);
        assert(seq![(name, value)].drop_first() == Seq::<FieldView>::empty());
    } else {
        let rest = fields.drop_first();
        lemmaValuesAfterFirst(fields, other);
        let result = fieldReplaced(fields, name, value);
        lemmaValuesAfterFirst(result, other);
        if fields[0].0 == name {
            lemmaValuesWithout(rest, name, other);
            assert(result.drop_first() == fieldsWithout(rest, name));
        } else {
            lawReplacingKeepsOtherValues(rest, name, value, other);
            assert(result.drop_first() == fieldReplaced(rest, name, value));
        }
    }
}

proof fn lemmaValuesAfterFirst(fields: Seq<FieldView>, name: Seq<char>)
    requires
        fields.len() > 0,
    ensures
        valuesNamed(fields, name) == (if fields[0].0 == name {
            seq![fields[0].1]
        } else {
            Seq::empty()
        }) + valuesNamed(fields.drop_first(), name),
    decreases fields.len(),
{
    if fields.len() == 1 {
        assert(fields.drop_last() == Seq::<FieldView>::empty());
        assert(fields.drop_first() == Seq::<FieldView>::empty());
        assert(valuesNamed(fields.drop_last(), name) == Seq::<Seq<u8>>::empty());
        assert(valuesNamed(fields, name) =~= (if fields[0].0 == name {
            seq![fields[0].1]
        } else {
            Seq::empty()
        }) + valuesNamed(fields.drop_first(), name));
    } else {
        let shorter = fields.drop_last();
        lemmaValuesAfterFirst(shorter, name);
        assert(shorter[0] == fields[0]);
        assert(fields.drop_first().drop_last() == shorter.drop_first());
        assert(fields.drop_first().last() == fields.last());
        assert(valuesNamed(fields, name) =~= (if fields[0].0 == name {
            seq![fields[0].1]
        } else {
            Seq::empty()
        }) + valuesNamed(fields.drop_first(), name));
    }
}

proof fn lemmaValuesWithout(fields: Seq<FieldView>, name: Seq<char>, other: Seq<char>)
    requires
        other != name,
    ensures
        valuesNamed(fieldsWithout(fields, name), other) == valuesNamed(fields, other),
    decreases fields.len(),
{
    if fields.len() > 0 {
        lemmaValuesWithout(fields.drop_last(), name, other);
        if fields.last().0 != name {
            let kept = fieldsWithout(fields, name);
            assert(kept.drop_last() == fieldsWithout(fields.drop_last(), name));
        }
    }
}

/// What is asked of a name by its first value and by all of them agrees, and one value is counted once.
pub proof fn lawFirstValueIsTheFirst(fields: Seq<FieldView>, name: Seq<char>)
    ensures
        firstField(fields, name) == if valuesNamed(fields, name).len() > 0 {
            Some(valuesNamed(fields, name)[0])
        } else {
            None
        },
        countField(fields, name) == valuesNamed(fields, name).len(),
        hasField(fields, name) <==> valuesNamed(fields, name).len() > 0,
    decreases fields.len(),
{
    if fields.len() > 0 {
        let rest = fields.drop_first();
        lemmaValuesAfterFirst(fields, name);
        lawFirstValueIsTheFirst(rest, name);
        if hasField(rest, name) {
            let i = choose|i: int| 0 <= i < rest.len() && (#[trigger] rest[i]).0 == name;
            assert(fields[i + 1].0 == name);
        }
        if hasField(fields, name) && fields[0].0 != name {
            let i = choose|i: int| 0 <= i < fields.len() && (#[trigger] fields[i]).0 == name;
            assert(rest[i - 1].0 == name);
        }
    }
}

/// The characters of a token are the letters and digits of ASCII and fifteen signs; a blank, a separator, a control
/// character or one outside of ASCII is none.
pub proof fn lawTokenCharacters(c: char)
    ensures
        isTokenChar(c) <==> c as u32 == 0x21 || 0x23 <= c as u32 <= 0x27 || c as u32 == 0x2a || c as u32
            == 0x2b || c as u32 == 0x2d || c as u32 == 0x2e || 0x30 <= c as u32 <= 0x39 || 0x41 <= c as u32
            <= 0x5a || 0x5e <= c as u32 <= 0x7a || c as u32 == 0x7c || c as u32 == 0x7e,
{
}

/// A header's name is a token, neither empty nor longer than 65535 characters, and its value can be read as text where
/// every byte is a tab or a visible one.
pub proof fn lawHeaderTextIsReadable(name: Seq<char>, bytes: Seq<u8>, i: int)
    ensures
        name.len() == 0 || name.len() > 65535 ==> !isHeaderName(name),
        0 <= i < name.len() && !isTokenChar(name[i]) ==> !isHeaderName(name),
        1 <= name.len() <= 65535 && (forall|k: int| 0 <= k < name.len() ==> isTokenChar(#[trigger] name[k]))
            ==> isHeaderName(name),
        0 <= i < bytes.len() && !(bytes[i] == 0x09 || 0x20 <= bytes[i] <= 0x7e) ==> readableText(bytes)
            is None,
        (forall|k: int|
            0 <= k < bytes.len() ==> #[trigger] bytes[k] == 0x09 || 0x20 <= bytes[k] <= 0x7e)
            ==> readableText(bytes) == Some(decode_utf8(bytes)),
{
    if 0 <= i < bytes.len() {
        assert(isVisibleByte(bytes[i]) <==> bytes[i] == 0x09 || 0x20 <= bytes[i] <= 0x7e);
    }
}

} // verus!
