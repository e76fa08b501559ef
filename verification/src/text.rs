//! Text primitives: every function is stated over a string's sequence of characters.

use vstd::prelude::*;
use vstd::utf8::{decode_utf8, encode_utf8, valid_utf8};

verus! {

/// Appends one character to a string.
///
/// Trusted: `String::push`, documented to append the given character to the end of the string.
#[verifier::external_body]
pub(crate) fn pushChar(target: &mut String, c: char)
    ensures
        final(target)@ == old(target)@.push(c),
{
    target.push(c);
}

/// Reads bytes as UTF-8.
///
/// Trusted: `std::str::from_utf8`, documented to succeed exactly on valid UTF-8 and to give the
/// text that the bytes write.
#[verifier::external_body]
pub(crate) fn textFromBytes(bytes: &[u8]) -> (result: Option<String>)
    ensures
        match result {
            Some(text) => valid_utf8(bytes@) && text@ == decode_utf8(bytes@),
            None => !valid_utf8(bytes@),
        },
{
    std::str::from_utf8(bytes).ok().map(|text| text.to_owned())
}

/// Bytes as text, with what is not UTF-8 replaced.
pub uninterp spec fn lossyText(bytes: Seq<u8>) -> Seq<char>;

/// Reads bytes as UTF-8 and replaces what is none.
///
/// Trusted: `String::from_utf8_lossy`. The text depends on the bytes alone, and valid UTF-8 comes
/// out as the text it writes.
#[verifier::external_body]
pub(crate) fn textOfBytesLossily(bytes: &[u8]) -> (result: String)
    ensures
        result@ == lossyText(bytes@),
        valid_utf8(bytes@) ==> result@ == decode_utf8(bytes@),
{
    String::from_utf8_lossy(bytes).into_owned()
}

/// The characters of each string of a sequence.
pub open spec fn views(texts: Seq<String>) -> Seq<Seq<char>> {
    texts.map_values(|text: String| text@)
}

/// Copies a string's characters into a vector.
pub fn charsOf(source: &str) -> (result: Vec<char>)
    ensures
        result@ == source@,
{
    let mut result: Vec<char> = Vec::new();
    for c in iter: source.chars()
        invariant
            result@ == source@.take(iter.index() as int),
            iter.seq() == source@,
    {
        result.push(c);
    }
    result
}

/// Builds a string from the characters `from..to` of a vector.
pub fn textOfRange(chars: &Vec<char>, from: usize, to: usize) -> (result: String)
    requires
        from <= to <= chars@.len(),
    ensures
        result@ == chars@.subrange(from as int, to as int),
{
    let mut result = String::new();
    let mut i: usize = from;
    while i < to
        invariant
            from <= i <= to <= chars@.len(),
            result@ == chars@.subrange(from as int, i as int),
        decreases to - i,
    {
        pushChar(&mut result, chars[i]);
        i += 1;
        assert(result@ == chars@.subrange(from as int, i as int));
    }
    result
}

/// Builds a string from a vector of characters.
pub fn textOf(chars: &Vec<char>) -> (result: String)
    ensures
        result@ == chars@,
{
    let result = textOfRange(chars, 0, chars.len());
    assert(chars@.subrange(0, chars@.len() as int) == chars@);
    result
}

/// An independent string with the same characters.
pub fn copyText(source: &str) -> (result: String)
    ensures
        result@ == source@,
{
    source.to_owned()
}

/// An independent copy of an optional string.
pub fn copyOptional(source: &Option<String>) -> (result: Option<String>)
    ensures
        optionalView(result) == optionalView(*source),
{
    match source {
        Some(text) => Some(copyText(text.as_str())),
        None => None,
    }
}

/// The characters of an optional string.
pub open spec fn optionalView(source: Option<String>) -> Option<Seq<char>> {
    match source {
        Some(text) => Some(text@),
        None => None,
    }
}

/// Whether two strings hold the same characters.
pub fn equalText(left: &str, right: &str) -> (result: bool)
    ensures
        result == (left@ == right@),
{
    let a = charsOf(left);
    let b = charsOf(right);
    if a.len() != b.len() {
        return false;
    }
    let mut i: usize = 0;
    while i < a.len()
        invariant
            i <= a.len(),
            a@ == left@,
            b@ == right@,
            a.len() == b.len(),
            forall|k: int| 0 <= k < i ==> a@[k] == b@[k],
        decreases a.len() - i,
    {
        if a[i] != b[i] {
            assert(left@[i as int] != right@[i as int]);
            return false;
        }
        i += 1;
    }
    assert(left@ == right@);
    true
}

/// The bytes of a concatenation.
pub proof fn lemmaByteLengthConcat(left: Seq<char>, right: Seq<char>)
    ensures
        byteLength(left + right) == byteLength(left) + byteLength(right),
    decreases left.len(),
{
    if left.len() == 0 {
        assert(left + right == right);
    } else {
        let rest = left.drop_first();
        lemmaByteLengthConcat(rest, right);
        assert((left + right).drop_first() == rest + right);
        assert((left + right)[0] == left[0]);
    }
}

/// The number of bytes in a string's UTF-8 form.
pub open spec fn byteLength(text: Seq<char>) -> nat {
    encode_utf8(text).len()
}

/// The number of bytes in a string's UTF-8 form.
pub fn byteLen(text: &str) -> (result: usize)
    ensures
        result == byteLength(text@),
{
    text.as_bytes().len()
}

/// The concatenation of two strings.
pub fn concatText(left: &str, right: &str) -> (result: String)
    ensures
        result@ == left@ + right@,
{
    let mut result = copyText(left);
    result.append(right);
    result
}

/// The concatenation of three strings.
pub fn concatThree(first: &str, second: &str, third: &str) -> (result: String)
    ensures
        result@ == first@ + second@ + third@,
{
    let mut result = copyText(first);
    result.append(second);
    result.append(third);
    result
}

// ---------------------------------------------------------------------------
// ASCII case
// ---------------------------------------------------------------------------

/// Maps `A`..`Z` to `a`..`z` and keeps every other character.
pub open spec fn asciiLower(c: char) -> char {
    if 'A' <= c && c <= 'Z' {
        ((c as u32) + 32) as char
    } else {
        c
    }
}

/// A text with every ASCII letter in lower case.
pub open spec fn asciiLowered(text: Seq<char>) -> Seq<char> {
    text.map_values(|c: char| asciiLower(c))
}

/// Lower case is decided character by character: the letters from `A` to `Z` become those from `a` to
/// `z` in their order, every other character stays, and lower case is final.
pub proof fn lawAsciiLowerCase(text: Seq<char>)
    ensures
        asciiLowered(text).len() == text.len(),
        forall|i: int|
            #![trigger asciiLowered(text)[i]]
            0 <= i < text.len() ==> if 'A' <= text[i] <= 'Z' {
                'a' <= asciiLowered(text)[i] <= 'z' && asciiLowered(text)[i] as u32 - 'a' as u32
                    == text[i] as u32 - 'A' as u32
            } else {
                asciiLowered(text)[i] == text[i]
            },
        asciiLowered(asciiLowered(text)) == asciiLowered(text),
{
    assert forall|i: int|
        #![trigger asciiLowered(text)[i]]
        0 <= i < text.len() implies if 'A' <= text[i] <= 'Z' {
        'a' <= asciiLowered(text)[i] <= 'z' && asciiLowered(text)[i] as u32 - 'a' as u32
            == text[i] as u32 - 'A' as u32
    } else {
        asciiLowered(text)[i] == text[i]
    } by {
        assert(asciiLowered(text)[i] == asciiLower(text[i]));
    }
    assert(asciiLowered(asciiLowered(text)) =~= asciiLowered(text));
}

/// The ASCII lower case of one character.
pub fn asciiLowerChar(c: char) -> (result: char)
    ensures
        result == asciiLower(c),
{
    if 'A' <= c && c <= 'Z' {
        let byte: u8 = c as u8;
        (byte + 32) as char
    } else {
        c
    }
}

/// A string with every ASCII letter in lower case.
pub fn asciiLowerText(source: &str) -> (result: String)
    ensures
        result@ == asciiLowered(source@),
{
    let chars = charsOf(source);
    let mut result = String::new();
    let mut i: usize = 0;
    while i < chars.len()
        invariant
            i <= chars.len(),
            chars@ == source@,
            result@ == asciiLowered(source@.take(i as int)),
        decreases chars.len() - i,
    {
        pushChar(&mut result, asciiLowerChar(chars[i]));
        i += 1;
        assert(result@ == asciiLowered(source@.take(i as int)));
    }
    assert(source@.take(source@.len() as int) == source@);
    result
}

/// Whether two strings are equal once ASCII letter case is ignored.
pub fn equalIgnoringAsciiCase(left: &str, right: &str) -> (result: bool)
    ensures
        result == (asciiLowered(left@) == asciiLowered(right@)),
{
    let a = asciiLowerText(left);
    let b = asciiLowerText(right);
    equalText(a.as_str(), b.as_str())
}

/// A text with every letter in lower case, by the rules of Unicode.
pub uninterp spec fn lowered(text: Seq<char>) -> Seq<char>;

/// A string with every letter in lower case, by the rules of Unicode.
///
/// Trusted: `str::to_lowercase`. The result depends on the text alone.
#[verifier::external_body]
pub(crate) fn lowerText(source: &str) -> (result: String)
    ensures
        result@ == lowered(source@),
{
    source.to_lowercase()
}

// ---------------------------------------------------------------------------
// Character classes
// ---------------------------------------------------------------------------

/// The characters with the Unicode `White_Space` property.
pub open spec fn isWhitespace(c: char) -> bool {
    let code = c as u32;
    ||| 0x9 <= code <= 0xD
    ||| code == 0x20
    ||| code == 0x85
    ||| code == 0xA0
    ||| code == 0x1680
    ||| 0x2000 <= code <= 0x200A
    ||| code == 0x2028
    ||| code == 0x2029
    ||| code == 0x202F
    ||| code == 0x205F
    ||| code == 0x3000
}

/// Whether a character has the Unicode `White_Space` property.
pub fn isWhitespaceChar(c: char) -> (result: bool)
    ensures
        result == isWhitespace(c),
{
    let code: u32 = c as u32;
    (0x9 <= code && code <= 0xD) || code == 0x20 || code == 0x85 || code == 0xA0 || code == 0x1680
        || (0x2000 <= code && code <= 0x200A) || code == 0x2028 || code == 0x2029 || code == 0x202F
        || code == 0x205F || code == 0x3000
}

/// The Unicode control characters (general category `Cc`).
pub open spec fn isControl(c: char) -> bool {
    let code = c as u32;
    code <= 0x1F || 0x7F <= code <= 0x9F
}

/// Whether a character is a Unicode control character.
pub fn isControlChar(c: char) -> (result: bool)
    ensures
        result == isControl(c),
{
    let code: u32 = c as u32;
    code <= 0x1F || (0x7F <= code && code <= 0x9F)
}

/// The decimal digits `0`..`9`.
pub open spec fn isDigit(c: char) -> bool {
    '0' <= c && c <= '9'
}

/// The ASCII letters and digits.
pub open spec fn isAsciiAlphanumeric(c: char) -> bool {
    isDigit(c) || ('a' <= c && c <= 'z') || ('A' <= c && c <= 'Z')
}

/// Whether a character is an ASCII letter or digit.
pub fn isAsciiAlphanumericChar(c: char) -> (result: bool)
    ensures
        result == isAsciiAlphanumeric(c),
{
    ('0' <= c && c <= '9') || ('a' <= c && c <= 'z') || ('A' <= c && c <= 'Z')
}

/// Whether a text holds a control character.
pub open spec fn hasControl(text: Seq<char>) -> bool {
    exists|i: int| 0 <= i < text.len() && isControl(#[trigger] text[i])
}

/// Whether a string holds a control character.
pub fn containsControl(source: &str) -> (result: bool)
    ensures
        result == hasControl(source@),
{
    let chars = charsOf(source);
    let mut i: usize = 0;
    while i < chars.len()
        invariant
            i <= chars.len(),
            chars@ == source@,
            forall|k: int| 0 <= k < i ==> !isControl(#[trigger] source@[k]),
        decreases chars.len() - i,
    {
        if isControlChar(chars[i]) {
            assert(isControl(source@[i as int]));
            return true;
        }
        i += 1;
    }
    false
}

// ---------------------------------------------------------------------------
// Trimming
// ---------------------------------------------------------------------------

/// A text without its leading white space.
pub open spec fn trimmedStart(text: Seq<char>) -> Seq<char>
    decreases text.len(),
{
    if text.len() > 0 && isWhitespace(text[0]) {
        trimmedStart(text.drop_first())
    } else {
        text
    }
}

/// A text without its trailing white space.
pub open spec fn trimmedEnd(text: Seq<char>) -> Seq<char>
    decreases text.len(),
{
    if text.len() > 0 && isWhitespace(text.last()) {
        trimmedEnd(text.drop_last())
    } else {
        text
    }
}

/// A text without leading and trailing white space.
pub open spec fn trimmed(text: Seq<char>) -> Seq<char> {
    trimmedEnd(trimmedStart(text))
}

/// A string without leading and trailing white space.
pub fn trimText(source: &str) -> (result: String)
    ensures
        result@ == trimmed(source@),
{
    let chars = charsOf(source);
    let mut from: usize = 0;
    assert(source@.skip(0) == source@);
    while from < chars.len() && isWhitespaceChar(chars[from])
        invariant
            from <= chars.len(),
            chars@ == source@,
            trimmedStart(source@) == trimmedStart(source@.skip(from as int)),
        decreases chars.len() - from,
    {
        assert(source@.skip(from as int).drop_first() == source@.skip(from + 1));
        from += 1;
    }
    let ghost rest = source@.skip(from as int);
    assert(trimmedStart(source@) == rest);
    let mut to: usize = chars.len();
    assert(rest.take(to - from) == rest);
    while from < to && isWhitespaceChar(chars[to - 1])
        invariant
            from <= to <= chars.len(),
            chars@ == source@,
            rest == source@.skip(from as int),
            trimmedEnd(rest) == trimmedEnd(rest.take(to - from)),
        decreases to,
    {
        assert(rest.take(to - from).drop_last() == rest.take(to - 1 - from));
        to -= 1;
    }
    assert(rest.take(to - from) == source@.subrange(from as int, to as int));
    textOfRange(&chars, from, to)
}

/// Trimming keeps no white space at either end.
pub proof fn lemmaTrimmedEnds(text: Seq<char>)
    ensures
        trimmed(text).len() > 0 ==> !isWhitespace(trimmed(text)[0]) && !isWhitespace(
            trimmed(text).last(),
        ),
        trimmed(text).len() <= text.len(),
{
    lemmaTrimmedStartHead(text);
    lemmaTrimmedEndTail(trimmedStart(text));
}

proof fn lemmaTrimmedStartHead(text: Seq<char>)
    ensures
        trimmedStart(text).len() > 0 ==> !isWhitespace(trimmedStart(text)[0]),
        trimmedStart(text).len() <= text.len(),
    decreases text.len(),
{
    if text.len() > 0 && isWhitespace(text[0]) {
        lemmaTrimmedStartHead(text.drop_first());
    }
}

proof fn lemmaTrimmedEndTail(text: Seq<char>)
    ensures
        trimmedEnd(text).len() > 0 ==> !isWhitespace(trimmedEnd(text).last()),
        trimmedEnd(text).len() <= text.len(),
        trimmedEnd(text) == text.take(trimmedEnd(text).len() as int),
    decreases text.len(),
{
    if text.len() > 0 && isWhitespace(text.last()) {
        lemmaTrimmedEndTail(text.drop_last());
        assert(text.drop_last().take(trimmedEnd(text).len() as int) == text.take(
            trimmedEnd(text).len() as int,
        ));
    } else {
        assert(text.take(text.len() as int) == text);
    }
}

/// Trimming twice is trimming once.
pub proof fn lemmaTrimIdempotent(text: Seq<char>)
    ensures
        trimmed(trimmed(text)) == trimmed(text),
{
    lemmaTrimmedEnds(text);
}

// ---------------------------------------------------------------------------
// Searching, splitting and joining
// ---------------------------------------------------------------------------

/// Trimming takes the blanks around a text and nothing else: a text that neither begins nor ends with
/// one comes back, whatever blanks are put around it, and blanks alone leave nothing.
pub proof fn lawTrimmingTakesOuterBlanks(before: Seq<char>, text: Seq<char>, after: Seq<char>)
    requires
        forall|i: int| 0 <= i < before.len() ==> isWhitespace(#[trigger] before[i]),
        forall|i: int| 0 <= i < after.len() ==> isWhitespace(#[trigger] after[i]),
    ensures
        text.len() > 0 && !isWhitespace(text[0]) && !isWhitespace(text.last()) ==> trimmed(
            before + text + after,
        ) == text,
        trimmed(before) == Seq::<char>::empty(),
{
    let rest = text + after;
    assert(before + text + after == before + rest);
    if text.len() > 0 && !isWhitespace(text[0]) && !isWhitespace(text.last()) {
        lemmaBlanksBefore(before, rest);
        assert(rest[0] == text[0]);
        assert(trimmedStart(rest) == rest);
        lemmaBlanksAfter(text, after);
        assert(trimmedEnd(text) == text);
    }
    lemmaBlanksBefore(before, Seq::empty());
    assert(before + Seq::<char>::empty() == before);
}

pub(crate) proof fn lemmaBlanksBefore(before: Seq<char>, text: Seq<char>)
    requires
        forall|i: int| 0 <= i < before.len() ==> isWhitespace(#[trigger] before[i]),
    ensures
        trimmedStart(before + text) == trimmedStart(text),
    decreases before.len(),
{
    if before.len() == 0 {
        assert(before + text == text);
    } else {
        let rest = before.drop_first();
        assert forall|i: int| 0 <= i < rest.len() implies isWhitespace(#[trigger] rest[i]) by {
            assert(rest[i] == before[i + 1]);
        }
        lemmaBlanksBefore(rest, text);
        assert(isWhitespace(before[0]));
        assert((before + text)[0] == before[0]);
        assert((before + text).drop_first() == rest + text);
    }
}

pub(crate) proof fn lemmaBlanksAfter(text: Seq<char>, after: Seq<char>)
    requires
        forall|i: int| 0 <= i < after.len() ==> isWhitespace(#[trigger] after[i]),
    ensures
        trimmedEnd(text + after) == trimmedEnd(text),
    decreases after.len(),
{
    if after.len() == 0 {
        assert(text + after == text);
    } else {
        let rest = after.drop_last();
        assert forall|i: int| 0 <= i < rest.len() implies isWhitespace(#[trigger] rest[i]) by {
            assert(rest[i] == after[i]);
        }
        lemmaBlanksAfter(text, rest);
        assert(isWhitespace(after[after.len() - 1]));
        assert((text + after).last() == after.last());
        assert((text + after).drop_last() == text + rest);
    }
}

/// The index of the first occurrence of a character, or the length where there is none.
pub open spec fn indexOf(text: Seq<char>, c: char) -> int
    decreases text.len(),
{
    if text.len() == 0 || text[0] == c {
        0
    } else {
        1 + indexOf(text.drop_first(), c)
    }
}

/// What `indexOf` finds.
pub proof fn lemmaIndexOf(text: Seq<char>, c: char)
    ensures
        0 <= indexOf(text, c) <= text.len(),
        indexOf(text, c) < text.len() ==> text[indexOf(text, c)] == c,
        forall|k: int| 0 <= k < indexOf(text, c) ==> text[k] != c,
        indexOf(text, c) == text.len() <==> !text.contains(c),
    decreases text.len(),
{
    if text.len() == 0 || text[0] == c {
        if text.len() > 0 {
            assert(text.contains(c));
        }
    } else {
        let rest = text.drop_first();
        lemmaIndexOf(rest, c);
        assert forall|k: int| 0 <= k < indexOf(text, c) implies text[k] != c by {
            if k > 0 {
                assert(text[k] == rest[k - 1]);
            }
        }
        if text.contains(c) {
            let k = choose|k: int| 0 <= k < text.len() && text[k] == c;
            assert(rest[k - 1] == c);
            assert(rest.contains(c));
        }
        if rest.contains(c) {
            let k = choose|k: int| 0 <= k < rest.len() && rest[k] == c;
            assert(text[k + 1] == c);
        }
    }
}

/// The index of the first occurrence of a character at or after `from`.
pub fn findChar(chars: &Vec<char>, from: usize, c: char) -> (result: usize)
    requires
        from <= chars@.len(),
    ensures
        result == from + indexOf(chars@.skip(from as int), c),
        from <= result <= chars@.len(),
{
    let mut i: usize = from;
    while i < chars.len() && chars[i] != c
        invariant
            from <= i <= chars@.len(),
            from + indexOf(chars@.skip(from as int), c) == i + indexOf(chars@.skip(i as int), c),
        decreases chars@.len() - i,
    {
        assert(chars@.skip(i as int).drop_first() == chars@.skip(i + 1));
        i += 1;
    }
    i
}

/// The two sides of the first occurrence of a separator.
pub open spec fn splitOnce(text: Seq<char>, separator: char) -> Option<(Seq<char>, Seq<char>)> {
    let at = indexOf(text, separator);
    if at < text.len() {
        Some((text.take(at), text.skip(at + 1)))
    } else {
        None
    }
}

/// The two sides of the first occurrence of a separator.
pub fn splitOnceText(source: &str, separator: char) -> (result: Option<(String, String)>)
    ensures
        match result {
            Some(parts) => splitOnce(source@, separator) == Some((parts.0@, parts.1@)),
            None => splitOnce(source@, separator) is None,
        },
{
    let chars = charsOf(source);
    assert(chars@.skip(0) == source@);
    let at = findChar(&chars, 0, separator);
    if at < chars.len() {
        let left = textOfRange(&chars, 0, at);
        let right = textOfRange(&chars, at + 1, chars.len());
        assert(left@ == source@.take(at as int));
        assert(right@ == source@.skip(at + 1));
        Some((left, right))
    } else {
        None
    }
}

/// The separator that splits a text is its first: what stands before it holds none, and both sides come
/// back as they were put together. A text without the separator is not split.
pub proof fn lawSplitOnceUndoesPairing(left: Seq<char>, separator: char, right: Seq<char>)
    ensures
        !left.contains(separator) ==> splitOnce(left + seq![separator] + right, separator) == Some(
            (left, right),
        ),
        !left.contains(separator) ==> splitOnce(left, separator) is None,
{
    if !left.contains(separator) {
        let whole = left + seq![separator] + right;
        lemmaIndexOf(left, separator);
        lemmaIndexOf(whole, separator);
        assert(whole[left.len() as int] == separator);
        let at = indexOf(whole, separator);
        if at < left.len() {
            assert(whole[at] == left[at]);
            assert(left.contains(separator));
        }
        assert(at == left.len());
        assert(whole.take(at) == left);
        assert(whole.skip(at + 1) == right);
    }
}

/// The pieces between the occurrences of a separator; never empty.
pub open spec fn splitOn(text: Seq<char>, separator: char) -> Seq<Seq<char>>
    decreases text.len(),
{
    if text.len() == 0 {
        seq![Seq::<char>::empty()]
    } else {
        let before = splitOn(text.drop_last(), separator);
        if text.last() == separator {
            before.push(Seq::<char>::empty())
        } else {
            before.drop_last().push(before.last().push(text.last()))
        }
    }
}

/// There is one piece more than there are separators, hence at least one.
pub proof fn lemmaSplitNonEmpty(text: Seq<char>, separator: char)
    ensures
        splitOn(text, separator).len() >= 1,
    decreases text.len(),
{
    if text.len() > 0 {
        lemmaSplitNonEmpty(text.drop_last(), separator);
    }
}

/// The pieces between the occurrences of a separator.
pub fn splitText(source: &str, separator: char) -> (result: Vec<String>)
    ensures
        views(result@) == splitOn(source@, separator),
        result@.len() >= 1,
{
    let chars = charsOf(source);
    let mut done: Vec<String> = Vec::new();
    let mut current = String::new();
    let mut i: usize = 0;
    assert(views(done@).push(current@) == splitOn(source@.take(0), separator));
    while i < chars.len()
        invariant
            i <= chars.len(),
            chars@ == source@,
            views(done@).push(current@) == splitOn(source@.take(i as int), separator),
        decreases chars.len() - i,
    {
        let c = chars[i];
        let ghost before = splitOn(source@.take(i as int), separator);
        assert(source@.take(i + 1).drop_last() == source@.take(i as int));
        assert(before.drop_last() == views(done@));
        if c == separator {
            let ghost oldDone = views(done@);
            let ghost finished = current@;
            done.push(current);
            current = String::new();
            assert(views(done@) == oldDone.push(finished));
        } else {
            pushChar(&mut current, c);
        }
        i += 1;
    }
    assert(source@.take(i as int) == source@);
    let ghost oldDone = views(done@);
    let ghost last = current@;
    done.push(current);
    assert(views(done@) == oldDone.push(last));
    done
}

/// The texts in order with a separator between neighbours.
pub open spec fn joined(texts: Seq<Seq<char>>, separator: Seq<char>) -> Seq<char>
    decreases texts.len(),
{
    if texts.len() == 0 {
        Seq::empty()
    } else if texts.len() == 1 {
        texts[0]
    } else {
        joined(texts.drop_last(), separator) + separator + texts.last()
    }
}

proof fn lemmaSplitAppended(text: Seq<char>, word: Seq<char>, separator: char)
    requires
        !word.contains(separator),
    ensures
        splitOn(text + word, separator) == splitOn(text, separator).drop_last().push(
            splitOn(text, separator).last() + word,
        ),
    decreases word.len(),
{
    let before = splitOn(text, separator);
    lemmaSplitNonEmpty(text, separator);
    if word.len() == 0 {
        assert(text + word == text);
        assert(before.last() + word == before.last());
        assert(before.drop_last().push(before.last()) == before);
    } else {
        let shorter = word.drop_last();
        assert(!shorter.contains(separator)) by {
            if shorter.contains(separator) {
                let k = choose|k: int| 0 <= k < shorter.len() && shorter[k] == separator;
                assert(word[k] == separator);
            }
        }
        lemmaSplitAppended(text, shorter, separator);
        assert((text + word).drop_last() == text + shorter);
        assert((text + word).last() == word.last());
        assert(word.contains(word.last()));
        let most = splitOn(text + shorter, separator);
        assert(most.drop_last() == before.drop_last());
        assert(most.last() == before.last() + shorter);
        assert((before.last() + shorter).push(word.last()) == before.last() + word);
    }
}

/// Splitting undoes joining: texts that do not hold the separator come back as they were.
pub proof fn lawSplitUndoesJoin(texts: Seq<Seq<char>>, separator: char)
    requires
        texts.len() > 0,
        forall|i: int| 0 <= i < texts.len() ==> !(#[trigger] texts[i]).contains(separator),
    ensures
        splitOn(joined(texts, seq![separator]), separator) == texts,
    decreases texts.len(),
{
    if texts.len() == 1 {
        let none = Seq::<char>::empty();
        lemmaSplitAppended(none, texts[0], separator);
        assert(none + texts[0] == texts[0]);
        assert(splitOn(texts[0], separator) == texts);
    } else {
        let before = texts.drop_last();
        assert forall|i: int| 0 <= i < before.len() implies !(#[trigger] before[i]).contains(
            separator,
        ) by {
            assert(before[i] == texts[i]);
        }
        lawSplitUndoesJoin(before, separator);
        let start = joined(before, seq![separator]);
        let opened = start + seq![separator];
        assert(opened.drop_last() == start);
        assert(splitOn(opened, separator) == before.push(Seq::<char>::empty()));
        lemmaSplitAppended(opened, texts.last(), separator);
        assert(!texts[texts.len() - 1].contains(separator));
        assert(before.push(Seq::<char>::empty()).drop_last() == before);
        assert(Seq::<char>::empty() + texts.last() == texts.last());
        assert(before.push(texts.last()) == texts);
    }
}

/// Joining undoes splitting, and no piece holds the separator or a character that the text does not
/// hold.
pub proof fn lawJoinUndoesSplit(text: Seq<char>, separator: char, absent: char)
    requires
        !text.contains(absent),
    ensures
        joined(splitOn(text, separator), seq![separator]) == text,
        forall|i: int|
            0 <= i < splitOn(text, separator).len() ==> !(#[trigger] splitOn(
                text,
                separator,
            )[i]).contains(separator) && !splitOn(text, separator)[i].contains(absent),
    decreases text.len(),
{
    let pieces = splitOn(text, separator);
    if text.len() > 0 {
        let shorter = text.drop_last();
        let before = splitOn(shorter, separator);
        assert(!shorter.contains(absent)) by {
            if shorter.contains(absent) {
                let k = choose|k: int| 0 <= k < shorter.len() && shorter[k] == absent;
                assert(text[k] == absent);
            }
        }
        lemmaSplitNonEmpty(shorter, separator);
        lawJoinUndoesSplit(shorter, separator, absent);
        let c = text.last();
        assert(text[text.len() - 1] == c);
        if c == separator {
            assert(pieces.drop_last() == before);
            assert(joined(pieces, seq![separator]) == shorter + seq![separator] + Seq::<
                char,
            >::empty());
            assert(joined(pieces, seq![separator]) == text);
            assert forall|i: int| 0 <= i < pieces.len() implies !(#[trigger] pieces[i]).contains(
                separator,
            ) && !pieces[i].contains(absent) by {
                if i < before.len() {
                    assert(pieces[i] == before[i]);
                }
            }
        } else {
            assert(pieces.drop_last() == before.drop_last());
            assert(pieces.last() == before.last().push(c));
            assert(joined(pieces, seq![separator]) == joined(before, seq![separator]).push(c));
            assert(shorter.push(c) == text);
            assert forall|i: int| 0 <= i < pieces.len() implies !(#[trigger] pieces[i]).contains(
                separator,
            ) && !pieces[i].contains(absent) by {
                assert(!before[i].contains(separator) && !before[i].contains(absent));
                if i < before.len() - 1 {
                    assert(pieces[i] == before[i]);
                } else {
                    assert(pieces[i] == before[i].push(c));
                    if pieces[i].contains(separator) {
                        let k = choose|k: int|
                            0 <= k < pieces[i].len() && pieces[i][k] == separator;
                        assert(before[i][k] == separator);
                    }
                    if pieces[i].contains(absent) {
                        let k = choose|k: int| 0 <= k < pieces[i].len() && pieces[i][k] == absent;
                        assert(before[i][k] == absent);
                    }
                }
            }
        }
    }
}

/// A joined text holds no character that neither a piece nor the separator holds.
pub proof fn lemmaJoinedChars(texts: Seq<Seq<char>>, separator: Seq<char>, absent: char)
    requires
        !separator.contains(absent),
        forall|i: int| 0 <= i < texts.len() ==> !(#[trigger] texts[i]).contains(absent),
    ensures
        !joined(texts, separator).contains(absent),
    decreases texts.len(),
{
    if texts.len() > 1 {
        let before = texts.drop_last();
        assert forall|i: int| 0 <= i < before.len() implies !(#[trigger] before[i]).contains(
            absent,
        ) by {
            assert(before[i] == texts[i]);
        }
        lemmaJoinedChars(before, separator, absent);
        let start = joined(before, separator);
        let whole = joined(texts, separator);
        assert(!texts[texts.len() - 1].contains(absent));
        if whole.contains(absent) {
            let k = choose|k: int| 0 <= k < whole.len() && whole[k] == absent;
            if k < start.len() {
                assert(start[k] == absent);
            } else if k < start.len() + separator.len() {
                assert(separator[k - start.len()] == absent);
            } else {
                assert(texts.last()[k - start.len() - separator.len()] == absent);
            }
        }
    }
}

/// Independent copies of texts.
pub fn copyTexts(texts: &Vec<String>) -> (result: Vec<String>)
    ensures
        views(result@) == views(texts@),
{
    let ghost all = views(texts@);
    let mut result: Vec<String> = Vec::new();
    let mut i: usize = 0;
    while i < texts.len()
        invariant
            i <= texts.len(),
            all == views(texts@),
            views(result@) == all.take(i as int),
        decreases texts.len() - i,
    {
        let ghost before = views(result@);
        result.push(copyText(texts[i].as_str()));
        assert(views(result@) == before.push(all[i as int]));
        i += 1;
        assert(views(result@) == all.take(i as int));
    }
    assert(all.take(i as int) == all);
    result
}

/// The first piece of a text is what stands before the first separator.
pub proof fn lawFirstPieceEndsAtSeparator(text: Seq<char>, separator: char)
    ensures
        splitOn(text, separator).len() > 0,
        splitOn(text, separator)[0] == text.take(indexOf(text, separator)),
        splitOn(text, separator).len() == 1 <==> !text.contains(separator),
    decreases text.len(),
{
    lemmaIndexOf(text, separator);
    if text.len() > 0 {
        let shorter = text.drop_last();
        let before = splitOn(shorter, separator);
        lawFirstPieceEndsAtSeparator(shorter, separator);
        lemmaIndexOf(shorter, separator);
        let at = indexOf(text, separator);
        let earlier = indexOf(shorter, separator);
        if earlier < shorter.len() {
            assert(text[earlier] == separator);
            assert(text.contains(separator));
            if at < earlier {
                assert(shorter[at] == separator);
            }
            assert(at == earlier);
            assert(shorter.take(at) =~= text.take(at));
        } else {
            if at < shorter.len() {
                assert(shorter[at] == separator);
                assert(shorter.contains(separator));
            }
            assert(at >= shorter.len());
            if text.last() == separator {
                assert(text[shorter.len() as int] == separator);
                assert(text.contains(separator));
                assert(at == shorter.len());
                assert(text.take(at) =~= shorter.take(earlier));
            } else {
                if text.contains(separator) {
                    let k = choose|k: int| 0 <= k < text.len() && text[k] == separator;
                    assert(shorter[k] == separator);
                }
                assert(text.take(at) =~= shorter.take(earlier).push(text.last()));
            }
        }
    } else {
        assert(text.take(0) =~= Seq::<char>::empty());
    }
}

/// The strings in order with a separator between neighbours.
pub fn joinTexts(texts: &Vec<String>, separator: &str) -> (result: String)
    ensures
        result@ == joined(views(texts@), separator@),
{
    let mut result = String::new();
    let mut i: usize = 0;
    while i < texts.len()
        invariant
            i <= texts.len(),
            result@ == joined(views(texts@.take(i as int)), separator@),
        decreases texts.len() - i,
    {
        let ghost upTo = views(texts@.take(i + 1));
        assert(upTo.drop_last() == views(texts@.take(i as int)));
        assert(upTo.last() == texts@[i as int]@);
        if i > 0 {
            result.append(separator);
        }
        result.append(texts[i].as_str());
        assert(result@ == joined(upTo, separator@));
        i += 1;
    }
    assert(texts@.take(i as int) == texts@);
    result
}

/// Whether a text begins with a prefix.
pub open spec fn startsWith(text: Seq<char>, prefix: Seq<char>) -> bool {
    prefix.len() <= text.len() && text.take(prefix.len() as int) == prefix
}

/// Whether the characters of `text` from `from` on begin with `prefix`.
pub fn matchesAt(text: &Vec<char>, from: usize, prefix: &Vec<char>) -> (result: bool)
    requires
        from <= text@.len(),
    ensures
        result == startsWith(text@.skip(from as int), prefix@),
{
    if text.len() - from < prefix.len() {
        return false;
    }
    let mut i: usize = 0;
    while i < prefix.len()
        invariant
            i <= prefix.len(),
            from + prefix.len() <= text.len(),
            forall|k: int| 0 <= k < i ==> text@[from + k] == prefix@[k],
        decreases prefix.len() - i,
    {
        if text[from + i] != prefix[i] {
            assert(text@.skip(from as int).take(prefix@.len() as int)[i as int] != prefix@[i as int]);
            return false;
        }
        i += 1;
    }
    assert(text@.skip(from as int).take(prefix@.len() as int) == prefix@);
    true
}

/// Whether a string begins with a prefix.
pub fn startsWithText(source: &str, prefix: &str) -> (result: bool)
    ensures
        result == startsWith(source@, prefix@),
{
    let text = charsOf(source);
    let head = charsOf(prefix);
    assert(text@.skip(0) == source@);
    matchesAt(&text, 0, &head)
}

/// Whether a text holds a pattern.
pub open spec fn holds(text: Seq<char>, pattern: Seq<char>) -> bool {
    exists|i: int| 0 <= i <= text.len() && #[trigger] startsWith(text.skip(i), pattern)
}

/// Whether a string holds a pattern.
pub fn holdsText(source: &str, pattern: &str) -> (result: bool)
    ensures
        result == holds(source@, pattern@),
{
    let text = charsOf(source);
    let part = charsOf(pattern);
    let mut i: usize = 0;
    while i < text.len()
        invariant
            i <= text.len(),
            text@ == source@,
            part@ == pattern@,
            forall|k: int| 0 <= k < i ==> !#[trigger] startsWith(source@.skip(k), pattern@),
        decreases text.len() - i,
    {
        if matchesAt(&text, i, &part) {
            assert(startsWith(source@.skip(i as int), pattern@));
            return true;
        }
        i += 1;
    }
    let atEnd = matchesAt(&text, text.len(), &part);
    assert(atEnd == startsWith(source@.skip(source@.len() as int), pattern@));
    atEnd
}

/// Replaces each occurrence of a non-empty pattern, left to right and without overlap.
pub open spec fn replaced(text: Seq<char>, pattern: Seq<char>, value: Seq<char>) -> Seq<char>
    decreases text.len(),
{
    if pattern.len() == 0 || text.len() < pattern.len() {
        text
    } else if startsWith(text, pattern) {
        value + replaced(text.skip(pattern.len() as int), pattern, value)
    } else {
        seq![text[0]] + replaced(text.drop_first(), pattern, value)
    }
}

/// Replaces each occurrence of a non-empty pattern, left to right and without overlap.
pub fn replaceText(source: &str, pattern: &str, value: &str) -> (result: String)
    requires
        pattern@.len() > 0,
    ensures
        result@ == replaced(source@, pattern@, value@),
{
    let text = charsOf(source);
    let needle = charsOf(pattern);
    let mut result = String::new();
    let mut i: usize = 0;
    assert(source@.skip(0) == source@);
    while text.len() - i >= needle.len()
        invariant
            i <= text.len(),
            text@ == source@,
            needle@ == pattern@,
            pattern@.len() > 0,
            result@ + replaced(source@.skip(i as int), pattern@, value@) == replaced(
                source@,
                pattern@,
                value@,
            ),
        decreases text.len() - i,
    {
        let ghost rest = source@.skip(i as int);
        let ghost before = result@;
        if matchesAt(&text, i, &needle) {
            assert(rest.skip(pattern@.len() as int) == source@.skip(i + pattern@.len()));
            result.append(value);
            i += needle.len();
            assert(before + (value@ + replaced(source@.skip(i as int), pattern@, value@)) == result@
                + replaced(source@.skip(i as int), pattern@, value@));
        } else {
            assert(rest.drop_first() == source@.skip(i + 1));
            pushChar(&mut result, text[i]);
            i += 1;
            assert(before + (seq![rest[0]] + replaced(source@.skip(i as int), pattern@, value@))
                == result@ + replaced(source@.skip(i as int), pattern@, value@));
        }
    }
    let tail = textOfRange(&text, i, text.len());
    assert(tail@ == source@.skip(i as int));
    result.append(tail.as_str());
    result
}

// ---------------------------------------------------------------------------
// Order
// ---------------------------------------------------------------------------

/// The lexicographic order of two texts by character code.
pub open spec fn textLess(left: Seq<char>, right: Seq<char>) -> bool
    decreases left.len(),
{
    if right.len() == 0 {
        false
    } else if left.len() == 0 {
        true
    } else if left[0] != right[0] {
        left[0] < right[0]
    } else {
        textLess(left.drop_first(), right.drop_first())
    }
}

/// Exactly one of less, equal and greater holds.
pub proof fn lemmaTextOrderTotal(left: Seq<char>, right: Seq<char>)
    ensures
        left == right ==> !textLess(left, right),
        left != right ==> textLess(left, right) || textLess(right, left),
        !(textLess(left, right) && textLess(right, left)),
    decreases left.len(),
{
    if left.len() > 0 && right.len() > 0 {
        lemmaTextOrderTotal(left.drop_first(), right.drop_first());
        if left[0] == right[0] && left.drop_first() == right.drop_first() {
            assert(left == seq![left[0]] + left.drop_first());
            assert(right == seq![right[0]] + right.drop_first());
        }
    } else if left.len() == 0 && right.len() == 0 {
        assert(left == right);
    }
}

/// The order is transitive.
pub proof fn lemmaTextOrderTransitive(first: Seq<char>, second: Seq<char>, third: Seq<char>)
    requires
        textLess(first, second),
        textLess(second, third),
    ensures
        textLess(first, third),
    decreases first.len(),
{
    if first.len() > 0 && second.len() > 0 && third.len() > 0 && first[0] == second[0]
        && second[0] == third[0] {
        lemmaTextOrderTransitive(first.drop_first(), second.drop_first(), third.drop_first());
    }
}

/// The lexicographic order of two strings by character code.
pub fn lessText(left: &str, right: &str) -> (result: bool)
    ensures
        result == textLess(left@, right@),
{
    let a = charsOf(left);
    let b = charsOf(right);
    let mut i: usize = 0;
    assert(a@.skip(0) == a@ && b@.skip(0) == b@);
    while i < a.len() && i < b.len()
        invariant
            i <= a.len(),
            i <= b.len(),
            a@ == left@,
            b@ == right@,
            textLess(left@, right@) == textLess(a@.skip(i as int), b@.skip(i as int)),
        decreases a.len() - i,
    {
        if a[i] != b[i] {
            return a[i] < b[i];
        }
        assert(a@.skip(i as int).drop_first() == a@.skip(i + 1));
        assert(b@.skip(i as int).drop_first() == b@.skip(i + 1));
        i += 1;
    }
    i < b.len()
}

/// Puts a text at its place in an ascending list, after its equals.
pub open spec fn insertedText(sorted: Seq<Seq<char>>, text: Seq<char>) -> Seq<Seq<char>>
    decreases sorted.len(),
{
    if sorted.len() == 0 || textLess(text, sorted[0]) {
        seq![text] + sorted
    } else {
        seq![sorted[0]] + insertedText(sorted.drop_first(), text)
    }
}

/// The texts in ascending order; equals keep their order.
pub open spec fn sortedTexts(texts: Seq<Seq<char>>) -> Seq<Seq<char>>
    decreases texts.len(),
{
    if texts.len() == 0 {
        texts
    } else {
        insertedText(sortedTexts(texts.drop_last()), texts.last())
    }
}

/// Whether no text stands before a lesser one.
pub open spec fn isAscending(texts: Seq<Seq<char>>) -> bool {
    forall|i: int, j: int|
        0 <= i < j < texts.len() ==> !textLess(#[trigger] texts[j], #[trigger] texts[i])
}

proof fn lemmaInsertedText(sorted: Seq<Seq<char>>, text: Seq<char>)
    requires
        isAscending(sorted),
    ensures
        isAscending(insertedText(sorted, text)),
        insertedText(sorted, text).to_multiset() == sorted.to_multiset().insert(text),
        forall|k: int|
            0 <= k < insertedText(sorted, text).len() ==> (#[trigger] insertedText(sorted, text)[k]
                == text || sorted.contains(insertedText(sorted, text)[k])),
    decreases sorted.len(),
{
    broadcast use vstd::seq_lib::group_to_multiset_ensures;

    let result = insertedText(sorted, text);
    if sorted.len() == 0 || textLess(text, sorted[0]) {
        assert forall|i: int, j: int| 0 <= i < j < result.len() implies !textLess(
            #[trigger] result[j],
            #[trigger] result[i],
        ) by {
            assert(result[j] == sorted[j - 1]);
            if i == 0 {
                lemmaTextOrderTotal(text, sorted[j - 1]);
                if textLess(sorted[j - 1], text) {
                    lemmaTextOrderTransitive(sorted[j - 1], text, sorted[0]);
                    if j == 1 {
                        lemmaTextOrderTotal(sorted[0], sorted[0]);
                    }
                }
            } else {
                assert(result[i] == sorted[i - 1]);
            }
        }
        assert forall|k: int| 0 <= k < result.len() implies (#[trigger] result[k] == text
            || sorted.contains(result[k])) by {
            if k > 0 {
                assert(result[k] == sorted[k - 1]);
            }
        }
        assert(result == sorted.insert(0, text));
        vstd::seq_lib::to_multiset_insert(sorted, 0, text);
    } else {
        let rest = sorted.drop_first();
        let inner = insertedText(rest, text);
        assert(isAscending(rest)) by {
            assert forall|i: int, j: int| 0 <= i < j < rest.len() implies !textLess(
                #[trigger] rest[j],
                #[trigger] rest[i],
            ) by {
                assert(rest[i] == sorted[i + 1] && rest[j] == sorted[j + 1]);
            }
        }
        lemmaInsertedText(rest, text);
        assert forall|i: int, j: int| 0 <= i < j < result.len() implies !textLess(
            #[trigger] result[j],
            #[trigger] result[i],
        ) by {
            assert(result[j] == inner[j - 1]);
            if i > 0 {
                assert(result[i] == inner[i - 1]);
            } else if inner[j - 1] != text {
                let k = choose|k: int| 0 <= k < rest.len() && rest[k] == inner[j - 1];
                assert(rest[k] == sorted[k + 1]);
            }
        }
        assert forall|k: int| 0 <= k < result.len() implies (#[trigger] result[k] == text
            || sorted.contains(result[k])) by {
            if k == 0 {
                assert(sorted.contains(sorted[0]));
            } else {
                assert(result[k] == inner[k - 1]);
                if inner[k - 1] != text {
                    let m = choose|m: int| 0 <= m < rest.len() && rest[m] == inner[k - 1];
                    assert(sorted[m + 1] == inner[k - 1]);
                }
            }
        }
        assert(result == inner.insert(0, sorted[0]));
        vstd::seq_lib::to_multiset_insert(inner, 0, sorted[0]);
        assert(sorted == rest.insert(0, sorted[0]));
        vstd::seq_lib::to_multiset_insert(rest, 0, sorted[0]);
        assert(result.to_multiset() =~= sorted.to_multiset().insert(text));
    }
}

/// Sorting gives the same texts in ascending order.
pub proof fn lawSortedTexts(texts: Seq<Seq<char>>)
    ensures
        isAscending(sortedTexts(texts)),
        sortedTexts(texts).to_multiset() == texts.to_multiset(),
    decreases texts.len(),
{
    broadcast use vstd::seq_lib::group_to_multiset_ensures;

    if texts.len() > 0 {
        lawSortedTexts(texts.drop_last());
        lemmaInsertedText(sortedTexts(texts.drop_last()), texts.last());
        assert(texts == texts.drop_last().push(texts.last()));
    }
}

/// The strings in ascending order; equals keep their order.
pub fn sortTexts(texts: &Vec<String>) -> (result: Vec<String>)
    ensures
        views(result@) == sortedTexts(views(texts@)),
{
    let mut sorted: Vec<String> = Vec::new();
    let ghost all = views(texts@);
    let mut i: usize = 0;
    assert(views(sorted@) == sortedTexts(all.take(0)));
    while i < texts.len()
        invariant
            i <= texts.len(),
            all == views(texts@),
            views(sorted@) == sortedTexts(all.take(i as int)),
        decreases texts.len() - i,
    {
        assert(all.take(i + 1).drop_last() == all.take(i as int));
        let ghost before = views(sorted@);
        let text = copyText(texts[i].as_str());
        let mut at: usize = 0;
        assert(before.take(0) + insertedText(before.skip(0), text@) == insertedText(before, text@)) by {
            assert(before.skip(0) == before);
        }
        while at < sorted.len() && !lessText(text.as_str(), sorted[at].as_str())
            invariant
                at <= sorted.len(),
                before == views(sorted@),
                before.take(at as int) + insertedText(before.skip(at as int), text@)
                    == insertedText(before, text@),
            decreases sorted.len() - at,
        {
            let ghost rest = before.skip(at as int);
            assert(rest[0] == before[at as int]);
            assert(rest.drop_first() == before.skip(at + 1));
            assert(before.take(at as int) + (seq![rest[0]] + insertedText(
                before.skip(at + 1),
                text@,
            )) == before.take(at + 1) + insertedText(before.skip(at + 1), text@));
            at += 1;
        }
        let ghost rest = before.skip(at as int);
        if at < sorted.len() {
            assert(rest[0] == before[at as int]);
        }
        let ghost value = text@;
        sorted.insert(at, text);
        assert(views(sorted@) == before.take(at as int) + (seq![value] + rest));
        i += 1;
    }
    assert(all.take(i as int) == all);
    sorted
}

// ---------------------------------------------------------------------------
// Decimal numbers
// ---------------------------------------------------------------------------

/// The decimal digits of a number, without leading zeros.
pub open spec fn decimal(n: nat) -> Seq<char>
    decreases n,
{
    if n < 10 {
        seq![digitChar(n)]
    } else {
        decimal(n / 10).push(digitChar(n % 10))
    }
}

/// The character of one decimal digit.
pub open spec fn digitChar(n: nat) -> char {
    (48 + n) as char
}

/// The decimal digits of a number, without leading zeros.
pub fn decimalText(n: u64) -> (result: String)
    ensures
        result@ == decimal(n as nat),
    decreases n,
{
    let digit: u8 = (n % 10) as u8;
    let c: char = (48 + digit) as char;
    let mut result = if n < 10 {
        String::new()
    } else {
        decimalText(n / 10)
    };
    pushChar(&mut result, c);
    assert(n < 10 ==> result@ == seq![c]);
    result
}

/// Whether a text is a non-empty run of decimal digits.
pub open spec fn isDecimal(text: Seq<char>) -> bool {
    text.len() > 0 && forall|i: int| 0 <= i < text.len() ==> isDigit(#[trigger] text[i])
}

/// The number that a run of decimal digits writes.
pub open spec fn decimalValue(text: Seq<char>) -> nat
    decreases text.len(),
{
    if text.len() == 0 {
        0
    } else {
        decimalValue(text.drop_last()) * 10 + (text.last() as u32 - 48) as nat
    }
}

/// Decimal digits alone: what is written in decimal is read back as the same number, has no sign and no
/// needless zero in front.
pub proof fn lawDecimalIsReadBack(n: nat)
    ensures
        writtenUnsigned(decimal(n)) == Some(n),
        writtenUnsigned(seq!['+'] + decimal(n)) == Some(n),
        decimal(n).len() > 0,
        decimal(n)[0] == '0' ==> n == 0,
        forall|i: int| 0 <= i < decimal(n).len() ==> '0' <= #[trigger] decimal(n)[i] <= '9',
{
    lemmaDecimalDigits(n);
    let text = decimal(n);
    assert(isDigit(text[0]));
    assert((seq!['+'] + text).drop_first() == text);
}

proof fn lemmaDecimalDigits(n: nat)
    ensures
        decimal(n).len() > 0,
        isDecimal(decimal(n)),
        decimalValue(decimal(n)) == n,
        decimal(n)[0] == '0' ==> n == 0,
        forall|i: int| 0 <= i < decimal(n).len() ==> isDigit(#[trigger] decimal(n)[i]),
    decreases n,
{
    let text = decimal(n);
    if n < 10 {
        assert(text.drop_last() == Seq::<char>::empty());
        assert(text.last() as u32 == 48 + n);
        assert(decimalValue(text.drop_last()) == 0);
    } else {
        lemmaDecimalDigits(n / 10);
        assert(text.drop_last() == decimal(n / 10));
        assert(text.last() as u32 == 48 + n % 10);
        assert(decimalValue(text) == (n / 10) * 10 + n % 10);
        assert(text[0] == decimal(n / 10)[0]);
        assert forall|i: int| 0 <= i < text.len() implies isDigit(#[trigger] text[i]) by {
            if i < text.len() - 1 {
                assert(text[i] == decimal(n / 10)[i]);
            }
        }
    }
}

/// What follows an optional plus sign.
pub open spec fn unsignedDigits(text: Seq<char>) -> Seq<char> {
    if text.len() > 0 && text[0] == '+' {
        text.drop_first()
    } else {
        text
    }
}

/// The unsigned number that a text writes in decimal, optionally after a plus sign.
pub open spec fn writtenUnsigned(text: Seq<char>) -> Option<nat> {
    let digits = unsignedDigits(text);
    if isDecimal(digits) {
        Some(decimalValue(digits))
    } else {
        None
    }
}

/// Reads an unsigned number in decimal, optionally after a plus sign. A number beyond the type is
/// read as the largest one.
pub fn parseUnsigned(source: &str) -> (result: Option<u64>)
    ensures
        match result {
            Some(value) => writtenUnsigned(source@) matches Some(written) && value == if written
                <= u64::MAX {
                written as int
            } else {
                u64::MAX as int
            },
            None => writtenUnsigned(source@) is None,
        },
{
    let chars = charsOf(source);
    let from: usize = if chars.len() > 0 && chars[0] == '+' {
        1
    } else {
        0
    };
    let ghost digits = source@.skip(from as int);
    assert(from == 1 ==> digits == source@.drop_first());
    assert(from == 0 ==> digits == source@);
    if from == chars.len() {
        return None;
    }
    let mut value: u64 = 0;
    let mut i: usize = from;
    while i < chars.len()
        invariant
            from <= i <= chars.len(),
            chars@ == source@,
            digits == source@.skip(from as int),
            digits == unsignedDigits(source@),
            value == if decimalValue(digits.take(i - from)) <= u64::MAX {
                decimalValue(digits.take(i - from)) as int
            } else {
                u64::MAX as int
            },
            forall|k: int| 0 <= k < i - from ==> isDigit(#[trigger] digits[k]),
        decreases chars.len() - i,
    {
        let c = chars[i];
        assert(c == digits[i - from]);
        if !('0' <= c && c <= '9') {
            assert(!isDigit(digits[i - from]));
            return None;
        }
        let digit: u64 = (c as u32 - 48) as u64;
        assert(digits.take(i + 1 - from).drop_last() == digits.take(i - from));
        assert(digits.take(i + 1 - from).last() == c);
        value = if value > (u64::MAX - digit) / 10 {
            u64::MAX
        } else {
            value * 10 + digit
        };
        i += 1;
    }
    assert(digits.take(i - from) == digits);
    Some(value)
}

/// Where a text holds a pattern, the value stands in its place, and what is before and after it stays; the rest is
/// searched behind the value.
pub proof fn lawPatternIsReplaced(
    before: Seq<char>,
    pattern: Seq<char>,
    after: Seq<char>,
    value: Seq<char>,
)
    requires
        pattern.len() > 0,
        !before.contains(pattern[0]),
    ensures
        replaced(before + pattern + after, pattern, value) == before + value + replaced(
            after,
            pattern,
            value,
        ),
        replaced(before, pattern, value) == before,
    decreases before.len(),
{
    let text = before + pattern + after;
    if before.len() == 0 {
        assert(text =~= pattern + after);
        assert(text.take(pattern.len() as int) =~= pattern);
        assert(text.skip(pattern.len() as int) =~= after);
        assert(before + value + replaced(after, pattern, value) =~= value + replaced(
            after,
            pattern,
            value,
        ));
    } else {
        assert(before.contains(before[0]));
        assert(text[0] == before[0]);
        assert(text.take(pattern.len() as int)[0] == before[0]);
        let rest = before.drop_first();
        assert(!rest.contains(pattern[0])) by {
            if rest.contains(pattern[0]) {
                let k = choose|k: int| 0 <= k < rest.len() && rest[k] == pattern[0];
                assert(before[k + 1] == pattern[0]);
            }
        }
        lawPatternIsReplaced(rest, pattern, after, value);
        assert(text.drop_first() =~= rest + pattern + after);
        assert(seq![before[0]] + (rest + value + replaced(after, pattern, value)) =~= before + value
            + replaced(after, pattern, value));
        assert(seq![before[0]] + rest =~= before);
        if before.len() >= pattern.len() {
            assert(before.take(pattern.len() as int)[0] == before[0]);
        }
    }
}

/// A text holds each of its parts and begins with each of its first ones.
pub proof fn lawTextHoldsItsParts(before: Seq<char>, part: Seq<char>, after: Seq<char>)
    ensures
        startsWith(part + after, part),
        holds(before + part + after, part),
        startsWith(after, part) ==> exists|rest: Seq<char>| after == part + rest,
        holds(after, part) ==> exists|head: Seq<char>, rest: Seq<char>| after == head + part + rest,
{
    assert((part + after).take(part.len() as int) =~= part);
    assert((before + part + after).skip(before.len() as int) =~= part + after);
    assert(startsWith((before + part + after).skip(before.len() as int), part));
    if startsWith(after, part) {
        assert(after =~= part + after.skip(part.len() as int));
    }
    if holds(after, part) {
        let i = choose|i: int| 0 <= i <= after.len() && #[trigger] startsWith(after.skip(i), part);
        let rest = after.skip(i).skip(part.len() as int);
        assert(after.skip(i) =~= part + rest);
        assert(after =~= after.take(i) + part + rest);
    }
}

} // verus!
