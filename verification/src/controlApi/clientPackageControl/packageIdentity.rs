//! Installation identities of generated clients and the names of their files.

use crate::encoding::{digestSha256, sha256};
use crate::identifier::{bytesOfIdentifier, identifierBytes, simpleForm, simpleText};
use crate::text::{
    byteLen, byteLength, charsOf, concatThree, containsControl, copyText, equalText, hasControl,
    isControl, isWhitespace, joinTexts, joined, lawSplitUndoesJoin, lawTrimmingTakesOuterBlanks,
    lemmaTrimmedEnds, pushChar, splitOn, splitText, trimText, trimmed, views,
};
use vstd::prelude::*;
use vstd::utf8::{is_ascii_chars, is_ascii_chars_encode_utf8};

verus! {

/// Whether a character may stand in an application identifier's segment.
pub open spec fn isSegmentChar(c: char) -> bool {
    ('a' <= c && c <= 'z') || ('0' <= c && c <= '9') || c == '_'
}

/// A segment starts with a lower-case letter and goes on in lower-case letters, digits and
/// underscores.
pub open spec fn isSegment(segment: Seq<char>) -> bool {
    &&& segment.len() > 0
    &&& 'a' <= segment[0] && segment[0] <= 'z'
    &&& forall|i: int| 0 <= i < segment.len() ==> isSegmentChar(#[trigger] segment[i])
}

/// Two to eight segments between dots, at most 127 bytes.
pub open spec fn validApplicationId(applicationId: Seq<char>) -> bool {
    let segments = splitOn(applicationId, '.');
    &&& byteLength(applicationId) <= 127
    &&& 2 <= segments.len() <= 8
    &&& forall|i: int| 0 <= i < segments.len() ==> isSegment(#[trigger] segments[i])
}

fn isSegmentText(segment: &str) -> (result: bool)
    ensures
        result == isSegment(segment@),
{
    let chars = charsOf(segment);
    if chars.len() == 0 || chars[0] < 'a' || chars[0] > 'z' {
        return false;
    }
    let mut i: usize = 0;
    while i < chars.len()
        invariant
            i <= chars.len(),
            chars@ == segment@,
            forall|k: int| 0 <= k < i ==> isSegmentChar(#[trigger] segment@[k]),
        decreases chars.len() - i,
    {
        let c = chars[i];
        if !((c >= 'a' && c <= 'z') || (c >= '0' && c <= '9') || c == '_') {
            assert(!isSegmentChar(segment@[i as int]));
            return false;
        }
        i += 1;
    }
    true
}

/// Whether a text may identify an Android application.
pub fn isValidApplicationId(applicationId: &str) -> (result: bool)
    ensures
        result == validApplicationId(applicationId@),
{
    let segments = splitText(applicationId, '.');
    let ghost all = splitOn(applicationId@, '.');
    if byteLen(applicationId) > 127 || segments.len() < 2 || segments.len() > 8 {
        return false;
    }
    let mut i: usize = 0;
    while i < segments.len()
        invariant
            i <= segments.len(),
            views(segments@) == all,
            all.len() == segments.len(),
            all == splitOn(applicationId@, '.'),
            forall|k: int| 0 <= k < i ==> isSegment(#[trigger] all[k]),
        decreases segments.len() - i,
    {
        assert(all[i as int] == segments@[i as int]@);
        if !isSegmentText(segments[i].as_str()) {
            return false;
        }
        i += 1;
    }
    true
}

/// One to thirty-two characters, none a control character, with no white space at either end.
pub open spec fn validApplicationName(name: Seq<char>) -> bool {
    trimmed(name) == name && 1 <= name.len() <= 32 && !hasControl(name)
}

/// Whether a text may name an application.
pub fn isValidApplicationName(applicationName: &str) -> (result: bool)
    ensures
        result == validApplicationName(applicationName@),
{
    let count: usize = charsOf(applicationName).len();
    let plain = trimText(applicationName);
    equalText(plain.as_str(), applicationName) && 1 <= count && count <= 32 && !containsControl(
        applicationName,
    )
}

/// A name for records that were stored without one.
pub fn legacyApplicationName() -> (result: String)
    ensures
        result@ == "旧版客户端"@,
{
    copyText("旧版客户端")
}

/// The file name of a generated package.
pub open spec fn packageFileNameOf(id: u128) -> Seq<char> {
    "sprak-client-"@ + simpleForm(id) + ".apk"@
}

/// The file name of a generated package.
pub fn packageFileName(id: u128) -> (result: String)
    ensures
        result@ == packageFileNameOf(id),
{
    concatThree("sprak-client-", simpleText(id).as_str(), ".apk")
}

/// The file name of a package's record.
pub fn metadataFileName(id: u128) -> (result: String)
    ensures
        result@ == simpleForm(id) + ".json"@,
{
    crate::text::concatText(simpleText(id).as_str(), ".json")
}

// ---------------------------------------------------------------------------
// Random identities
// ---------------------------------------------------------------------------

/// The lower-case letter that a byte picks.
pub open spec fn letterOf(byte: u8) -> char {
    (97 + byte % 26) as char
}

/// The word that a window of bytes picks.
pub open spec fn wordOf(bytes: Seq<u8>, start: int, length: int) -> Seq<char> {
    bytes.subrange(start, start + length).map_values(|byte: u8| letterOf(byte))
}

/// How many letters a byte asks for.
pub open spec fn wordLength(byte: u8) -> int {
    3 + byte % 4
}

/// The three words that a digest picks, each led by the byte that fixes its length.
pub open spec fn wordsOf(digest: Seq<u8>) -> Seq<Seq<char>> {
    let first = wordLength(digest[0]);
    let second = wordLength(digest[1 + first]);
    let third = wordLength(digest[2 + first + second]);
    seq![
        wordOf(digest, 1, first),
        wordOf(digest, 2 + first, second),
        wordOf(digest, 3 + first + second, third),
    ]
}

/// The application identifier that a digest picks.
pub open spec fn applicationIdOf(digest: Seq<u8>) -> Seq<char> {
    joined(wordsOf(digest), "."@)
}

/// A word with its first letter in upper case.
pub open spec fn capitalized(word: Seq<char>) -> Seq<char> {
    if word.len() > 0 && 'a' <= word[0] && word[0] <= 'z' {
        word.update(0, (word[0] as u32 - 32) as char)
    } else {
        word
    }
}

/// The application name that a digest picks.
pub open spec fn applicationNameOf(digest: Seq<u8>) -> Seq<char> {
    capitalized(wordOf(digest, 1, wordLength(digest[0])))
}

/// The word that a window of bytes picks.
pub fn randomAsciiWord(bytes: &Vec<u8>, start: usize, length: usize) -> (result: String)
    requires
        start + length <= bytes.len(),
    ensures
        result@ == wordOf(bytes@, start as int, length as int),
{
    let mut result = String::new();
    let mut i: usize = 0;
    while i < length
        invariant
            i <= length,
            start + length <= bytes.len(),
            result@ == wordOf(bytes@, start as int, i as int),
        decreases length - i,
    {
        let code: u8 = 97 + bytes[start + i] % 26;
        pushChar(&mut result, code as char);
        i += 1;
        assert(result@ == wordOf(bytes@, start as int, i as int));
    }
    result
}

/// The application identifier that a 32-byte digest picks.
pub fn applicationIdFromDigest(digest: &Vec<u8>) -> (result: String)
    requires
        digest.len() == 32,
    ensures
        result@ == applicationIdOf(digest@),
{
    let mut words: Vec<String> = Vec::new();
    let first: usize = 3 + (digest[0] % 4) as usize;
    words.push(randomAsciiWord(digest, 1, first));
    let second: usize = 3 + (digest[1 + first] % 4) as usize;
    words.push(randomAsciiWord(digest, 2 + first, second));
    let third: usize = 3 + (digest[2 + first + second] % 4) as usize;
    words.push(randomAsciiWord(digest, 3 + first + second, third));
    assert(views(words@) == wordsOf(digest@));
    joinTexts(&words, ".")
}

/// The application name that a 32-byte digest picks.
pub fn applicationNameFromDigest(digest: &Vec<u8>) -> (result: String)
    requires
        digest.len() == 32,
    ensures
        result@ == applicationNameOf(digest@),
{
    let length: usize = 3 + (digest[0] % 4) as usize;
    let word = randomAsciiWord(digest, 1, length);
    let chars = charsOf(word.as_str());
    let mut result = String::new();
    let head: u8 = 65 + digest[1] % 26;
    assert(word@[0] == letterOf(digest@[1]));
    pushChar(&mut result, head as char);
    let mut i: usize = 1;
    while i < chars.len()
        invariant
            1 <= i <= chars.len(),
            chars@ == word@,
            result@ == capitalized(word@).take(i as int),
        decreases chars.len() - i,
    {
        pushChar(&mut result, chars[i]);
        i += 1;
        assert(result@ == capitalized(word@).take(i as int));
    }
    assert(result@ == capitalized(word@));
    result
}

/// The digest that seeds an identity.
pub open spec fn identityDigest(label: Seq<u8>, id: u128) -> Seq<u8> {
    sha256(label + identifierBytes(id))
}

/// The bytes of the label `package`.
pub open spec fn packageLabel() -> Seq<u8> {
    seq![112u8, 97, 99, 107, 97, 103, 101]
}

/// The bytes of the label `name`.
pub open spec fn nameLabel() -> Seq<u8> {
    seq![110u8, 97, 109, 101]
}

/// The application identifier of a job that asked for none.
pub fn randomApplicationId(id: u128) -> (result: String)
    ensures
        result@ == applicationIdOf(identityDigest(packageLabel(), id)),
        validApplicationId(result@),
{
    let mut seed: Vec<u8> = vec![112u8, 97, 99, 107, 97, 103, 101];
    assert(seed@ == packageLabel());
    let mut bytes = bytesOfIdentifier(id);
    seed.append(&mut bytes);
    let digest = digestSha256(seed.as_slice());
    proof {
        lawRandomApplicationIdIsValid(digest@);
    }
    applicationIdFromDigest(&digest)
}

/// The application name of a job that asked for none.
pub fn randomApplicationName(id: u128) -> (result: String)
    ensures
        result@ == applicationNameOf(identityDigest(nameLabel(), id)),
        validApplicationName(result@),
{
    let mut seed: Vec<u8> = vec![110u8, 97, 109, 101];
    assert(seed@ == nameLabel());
    let mut bytes = bytesOfIdentifier(id);
    seed.append(&mut bytes);
    let digest = digestSha256(seed.as_slice());
    proof {
        lawRandomApplicationNameIsValid(digest@);
    }
    applicationNameFromDigest(&digest)
}

proof fn lemmaWord(bytes: Seq<u8>, start: int, length: int)
    requires
        0 <= start,
        3 <= length,
        start + length <= bytes.len(),
    ensures
        wordOf(bytes, start, length).len() == length,
        forall|i: int|
            0 <= i < length ==> 'a' <= #[trigger] wordOf(bytes, start, length)[i] && wordOf(
                bytes,
                start,
                length,
            )[i] <= 'z',
        isSegment(wordOf(bytes, start, length)),
        !wordOf(bytes, start, length).contains('.'),
{
}

/// An identifier that the service picks obeys the rules that a requested one has to meet.
pub proof fn lawRandomApplicationIdIsValid(digest: Seq<u8>)
    requires
        digest.len() == 32,
    ensures
        validApplicationId(applicationIdOf(digest)),
{
    let first = wordLength(digest[0]);
    let second = wordLength(digest[1 + first]);
    let third = wordLength(digest[2 + first + second]);
    lemmaWord(digest, 1, first);
    lemmaWord(digest, 2 + first, second);
    lemmaWord(digest, 3 + first + second, third);
    let words = wordsOf(digest);
    reveal_strlit(".");
    assert("."@ == seq!['.']);
    lawSplitUndoesJoin(words, '.');
    let whole = applicationIdOf(digest);
    assert(whole == words[0] + seq!['.'] + words[1] + seq!['.'] + words[2]) by {
        reveal_with_fuel(joined, 3);
        assert(words.drop_last().drop_last()[0] == words[0]);
    }
    assert(is_ascii_chars(whole));
    is_ascii_chars_encode_utf8(whole);
    assert(byteLength(whole) == whole.len());
}

/// A name that the service picks obeys the rules that a requested one has to meet: three to six
/// letters, the first in upper case and the others in lower case.
pub proof fn lawRandomApplicationNameIsValid(digest: Seq<u8>)
    requires
        digest.len() == 32,
    ensures
        validApplicationName(applicationNameOf(digest)),
        3 <= applicationNameOf(digest).len() <= 6,
        'A' <= applicationNameOf(digest)[0] && applicationNameOf(digest)[0] <= 'Z',
        forall|i: int|
            1 <= i < applicationNameOf(digest).len() ==> 'a' <= #[trigger] applicationNameOf(
                digest,
            )[i] && applicationNameOf(digest)[i] <= 'z',
{
    lemmaWord(digest, 1, wordLength(digest[0]));
    let name = applicationNameOf(digest);
    assert(!isWhitespace(name[0]) && !isWhitespace(name.last()));
    assert(trimmed(name) == name);
}

/// An application is named by two to eight words with dots between, each of small letters, digits and
/// underscores and beginning with a letter, in at most 127 bytes; nothing else is a name.
pub proof fn lawApplicationIdIsDottedWords(words: Seq<Seq<char>>)
    requires
        words.len() > 0,
        forall|i: int| 0 <= i < words.len() ==> !(#[trigger] words[i]).contains('.'),
    ensures
        validApplicationId(joined(words, seq!['.'])) <==> byteLength(joined(words, seq!['.'])) <= 127
            && 2 <= words.len() <= 8 && forall|i: int|
            0 <= i < words.len() ==> (#[trigger] words[i]).len() > 0 && 'a' <= words[i][0] <= 'z'
                && forall|k: int|
                0 <= k < words[i].len() ==> 'a' <= #[trigger] words[i][k] <= 'z' || '0'
                    <= words[i][k] <= '9' || words[i][k] == '_',
{
    lawSplitUndoesJoin(words, '.');
    let whole = joined(words, seq!['.']);
    if validApplicationId(whole) {
        assert forall|i: int| 0 <= i < words.len() implies (#[trigger] words[i]).len() > 0 && 'a'
            <= words[i][0] <= 'z' && forall|k: int|
            0 <= k < words[i].len() ==> 'a' <= #[trigger] words[i][k] <= 'z' || '0' <= words[i][k]
                <= '9' || words[i][k] == '_' by {
            assert(isSegment(words[i]));
            assert forall|k: int| 0 <= k < words[i].len() implies 'a' <= #[trigger] words[i][k]
                <= 'z' || '0' <= words[i][k] <= '9' || words[i][k] == '_' by {
                assert(isSegmentChar(words[i][k]));
            }
        }
    }
}

/// A shown name has one to thirty-two characters, no blanks around it and no control characters.
pub proof fn lawApplicationNameIsShort(name: Seq<char>)
    ensures
        validApplicationName(name) <==> 1 <= name.len() <= 32 && !isWhitespace(name[0])
            && !isWhitespace(name.last()) && forall|i: int|
            0 <= i < name.len() ==> !isControl(#[trigger] name[i]),
{
    if 1 <= name.len() && !isWhitespace(name[0]) && !isWhitespace(name.last()) {
        let none = Seq::<char>::empty();
        lawTrimmingTakesOuterBlanks(none, name, none);
        assert(none + name + none =~= name);
    }
    if trimmed(name) == name && name.len() > 0 {
        lemmaTrimmedEnds(name);
    }
}

/// A letter stands for a byte by its place in the alphabet, over and over.
pub proof fn lawLettersFollowBytes(bytes: Seq<u8>, start: int, length: int, i: int)
    requires
        0 <= start <= start + length <= bytes.len(),
        0 <= i < length,
    ensures
        wordOf(bytes, start, length).len() == length,
        wordOf(bytes, start, length)[i] as u32 - 'a' as u32 == bytes[start + i] % 26,
        3 <= wordLength(bytes[start + i]) <= 6,
{
}

/// A word is capitalized by its first letter alone, and the identity of a package is drawn under the word that is
/// written here.
pub proof fn lawFirstLetterIsCapitalized(word: Seq<char>, i: int)
    ensures
        capitalized(word).len() == word.len(),
        0 < i < word.len() ==> capitalized(word)[i] == word[i],
        word.len() > 0 && 'a' <= word[0] <= 'z' ==> 'A' <= capitalized(word)[0] <= 'Z'
            && capitalized(word)[0] as u32 - 'A' as u32 == word[0] as u32 - 'a' as u32,
        word.len() > 0 && !('a' <= word[0] <= 'z') ==> capitalized(word) == word,
        packageLabel() == seq!['p' as u8, 'a' as u8, 'c' as u8, 'k' as u8, 'a' as u8, 'g' as u8, 'e' as u8],
{
}

/// The file of a package is named by its identifier, and the names of two packages differ in nothing else.
pub proof fn lawPackageFileIsNamedById(id: u128)
    ensures
        packageFileNameOf(id) == "sprak-client-"@ + simpleForm(id) + ".apk"@,
        packageFileNameOf(id).len() == 49,
        nameLabel() == seq!['n' as u8, 'a' as u8, 'm' as u8, 'e' as u8],
{
    reveal_strlit("sprak-client-");
    reveal_strlit(".apk");
    crate::identifier::lawIdentifierForms(id, 0);
}

} // verus!
