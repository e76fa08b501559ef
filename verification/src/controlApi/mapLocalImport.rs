//! Importing files for local mapping: the fields of an upload, in order, and their bounds.

use crate::controlApi::httpControl::{plainError, ApiError, ApiErrorView};
use crate::identifier::{canonicalForm, canonicalText, isRandomIdentifier, newIdentifier};
use crate::localization::ErrorCode;
use crate::text::{
    byteLen, byteLength, charsOf, concatThree, concatText, copyText, equalText, joinTexts, joined,
    lawJoinUndoesSplit, lawSplitUndoesJoin, lemmaByteLengthConcat, lemmaJoinedChars,
    lemmaSplitNonEmpty, lowerText, lowered, optionalView, pushChar, splitOn, splitText, views,
};
use vstd::prelude::*;

verus! {

pub const maximumImportedFileBytes: u64 = 67108864;

pub const maximumImportedTotalBytes: u64 = 503316480;

pub const maximumImportedFiles: usize = 2000;

pub const maximumRelativePathBytes: usize = 4096;

/// Why an import fails.
#[derive(Clone, Copy, Debug, PartialEq, Eq, Structural)]
pub enum MapLocalImportError {
    InvalidRequest,
    Storage,
}

/// The answer to a failed import.
pub open spec fn importApiError(error: MapLocalImportError) -> ApiErrorView {
    match error {
        MapLocalImportError::InvalidRequest => plainError(400, ErrorCode::InvalidToolRequest),
        MapLocalImportError::Storage => plainError(500, ErrorCode::ToolOperationFailed),
    }
}

/// Answers a failed import.
pub fn mapImportError(error: MapLocalImportError) -> (result: ApiError)
    ensures
        result@ == importApiError(error),
{
    match error {
        MapLocalImportError::InvalidRequest => ApiError::badRequest(ErrorCode::InvalidToolRequest),
        MapLocalImportError::Storage => ApiError::internal(ErrorCode::ToolOperationFailed),
    }
}

// ---------------------------------------------------------------------------
// Relative paths
// ---------------------------------------------------------------------------

/// A text with every backslash turned into a slash.
pub open spec fn slashed(text: Seq<char>) -> Seq<char> {
    text.map_values(
        |c: char|
            if c == '\\' {
                '/'
            } else {
                c
            },
    )
}

fn slashText(source: &str) -> (result: String)
    ensures
        result@ == slashed(source@),
{
    let chars = charsOf(source);
    let mut result = String::new();
    let mut i: usize = 0;
    while i < chars.len()
        invariant
            i <= chars.len(),
            chars@ == source@,
            result@ == slashed(source@.take(i as int)),
        decreases chars.len() - i,
    {
        pushChar(
            &mut result,
            if chars[i] == '\\' {
                '/'
            } else {
                chars[i]
            },
        );
        i += 1;
        assert(result@ == slashed(source@.take(i as int)));
    }
    assert(source@.take(i as int) == source@);
    result
}

/// Whether a path starts at a root or at a drive.
pub open spec fn isAnchored(path: Seq<char>) -> bool {
    ||| path.len() > 0 && path[0] == '/'
    ||| path.len() > 1 && path[1] == ':' && (('a' <= path[0] && path[0] <= 'z') || ('A' <= path[0]
        && path[0] <= 'Z'))
}

/// The segments that name something: those that are not empty.
pub open spec fn namingSegments(segments: Seq<Seq<char>>) -> Seq<Seq<char>>
    decreases segments.len(),
{
    if segments.len() == 0 {
        Seq::empty()
    } else {
        let before = namingSegments(segments.drop_last());
        if segments.last().len() == 0 {
            before
        } else {
            before.push(segments.last())
        }
    }
}

/// The names along a relative path. Anchored paths and paths with a dot directory, the current one or
/// the one above, are refused.
pub open spec fn relativeNames(text: Seq<char>) -> Option<Seq<Seq<char>>> {
    let path = slashed(text);
    let segments = splitOn(path, '/');
    let names = namingSegments(segments);
    if byteLength(text) == 0 || byteLength(text) > maximumRelativePathBytes || isAnchored(path)
        || segments.contains("."@) || segments.contains(".."@) || names.len() == 0 {
        None
    } else {
        Some(names)
    }
}

/// The names of a path.
pub open spec fn namesView(names: Option<Vec<String>>) -> Option<Seq<Seq<char>>> {
    match names {
        Some(names) => Some(views(names@)),
        None => None,
    }
}

/// The names along a relative path.
pub fn normalizeRelativePath(relativePath: &str) -> (result: Result<
    Vec<String>,
    MapLocalImportError,
>)
    ensures
        match relativeNames(relativePath@) {
            Some(names) => result matches Ok(found) && views(found@) == names,
            None => result == Err::<Vec<String>, MapLocalImportError>(
                MapLocalImportError::InvalidRequest,
            ),
        },
{
    let length: usize = byteLen(relativePath);
    if length == 0 || length > maximumRelativePathBytes {
        return Err(MapLocalImportError::InvalidRequest);
    }
    let path = slashText(relativePath);
    let chars = charsOf(path.as_str());
    if chars.len() > 0 && chars[0] == '/' {
        return Err(MapLocalImportError::InvalidRequest);
    }
    if chars.len() > 1 && chars[1] == ':' && ((chars[0] >= 'a' && chars[0] <= 'z') || (chars[0]
        >= 'A' && chars[0] <= 'Z')) {
        return Err(MapLocalImportError::InvalidRequest);
    }
    let segments = splitText(path.as_str(), '/');
    let ghost all = splitOn(path@, '/');
    let mut names: Vec<String> = Vec::new();
    let mut i: usize = 0;
    assert(all.take(0).len() == 0);
    assert(views(names@) == Seq::<Seq<char>>::empty());
    while i < segments.len()
        invariant
            i <= segments.len(),
            views(segments@) == all,
            all == splitOn(slashed(relativePath@), '/'),
            views(names@) == namingSegments(all.take(i as int)),
            forall|k: int| 0 <= k < i ==> #[trigger] all[k] != "."@ && all[k] != ".."@,
        decreases segments.len() - i,
    {
        assert(all.take(i + 1).drop_last() == all.take(i as int));
        assert(all.take(i + 1).last() == segments@[i as int]@);
        let segment = &segments[i];
        if equalText(segment.as_str(), ".") || equalText(segment.as_str(), "..") {
            assert(all[i as int] == "."@ || all[i as int] == ".."@);
            return Err(MapLocalImportError::InvalidRequest);
        }
        if !segment.as_str().is_empty() {
            let ghost before = names@;
            names.push(copyText(segment.as_str()));
            assert(views(names@) == views(before).push(segment@));
        }
        i += 1;
    }
    assert(all.take(i as int) == all);
    if names.len() == 0 {
        return Err(MapLocalImportError::InvalidRequest);
    }
    Ok(names)
}

proof fn lemmaNamingSegments(segments: Seq<Seq<char>>)
    ensures
        forall|i: int|
            0 <= i < namingSegments(segments).len() ==> {
                &&& (#[trigger] namingSegments(segments)[i]).len() > 0
                &&& segments.contains(namingSegments(segments)[i])
            },
    decreases segments.len(),
{
    if segments.len() > 0 {
        let before = segments.drop_last();
        lemmaNamingSegments(before);
        assert forall|i: int| 0 <= i < namingSegments(before).len() implies segments.contains(
            #[trigger] namingSegments(before)[i],
        ) by {
            let name = namingSegments(before)[i];
            assert(before.contains(name));
            let k = choose|k: int| 0 <= k < before.len() && before[k] == name;
            assert(segments[k] == name);
        }
        assert(segments.contains(segments[segments.len() - 1]));
    }
}

/// An accepted path stays below where it starts: every step names something, and none climbs or
/// stays.
pub proof fn lawAcceptedPathStaysBelow(text: Seq<char>)
    ensures
        relativeNames(text) matches Some(names) ==> names.len() > 0 && forall|i: int|
            0 <= i < names.len() ==> (#[trigger] names[i]).len() > 0 && names[i] != "."@ && names[i]
                != ".."@ && !names[i].contains('/') && !names[i].contains('\\'),
{
    let path = slashed(text);
    let segments = splitOn(path, '/');
    assert(!path.contains('\\'));
    lawJoinUndoesSplit(path, '/', '\\');
    lemmaNamingSegments(segments);
    let names = namingSegments(segments);
    assert forall|i: int| 0 <= i < names.len() implies !(#[trigger] names[i]).contains('/')
        && !names[i].contains('\\') by {
        let k = choose|k: int| 0 <= k < segments.len() && segments[k] == names[i];
        assert(!segments[k].contains('/') && !segments[k].contains('\\'));
    }
}

/// Dropping empty segments never makes a path longer.
proof fn lemmaNamesAreShorter(segments: Seq<Seq<char>>)
    ensures
        byteLength(joined(namingSegments(segments), "/"@)) <= byteLength(joined(segments, "/"@)),
    decreases segments.len(),
{
    if segments.len() > 0 {
        let before = segments.drop_last();
        let names = namingSegments(before);
        let last = segments.last();
        lemmaNamesAreShorter(before);
        if segments.len() > 1 {
            lemmaByteLengthConcat(joined(before, "/"@), "/"@);
            lemmaByteLengthConcat(joined(before, "/"@) + "/"@, last);
        } else {
            assert(before.len() == 0);
        }
        if last.len() > 0 {
            assert(namingSegments(segments).drop_last() == names);
            if names.len() > 0 {
                lemmaByteLengthConcat(joined(names, "/"@), "/"@);
                lemmaByteLengthConcat(joined(names, "/"@) + "/"@, last);
            }
        }
    }
}

proof fn lemmaSlashedLength(text: Seq<char>)
    ensures
        byteLength(slashed(text)) == byteLength(text),
    decreases text.len(),
{
    if text.len() > 0 {
        let rest = text.drop_first();
        lemmaSlashedLength(rest);
        assert(slashed(text).drop_first() == slashed(rest));
    } else {
        assert(slashed(text) == text);
    }
}

/// The first name comes first in a path that is joined from names.
proof fn lemmaJoinedStart(names: Seq<Seq<char>>)
    requires
        names.len() > 0,
    ensures
        joined(names, "/"@).len() >= names[0].len(),
        joined(names, "/"@).take(names[0].len() as int) == names[0],
        joined(names, "/"@).len() > names[0].len() ==> joined(names, "/"@)[names[0].len() as int]
            == '/',
    decreases names.len(),
{
    reveal_strlit("/");
    if names.len() > 1 {
        let before = names.drop_last();
        lemmaJoinedStart(before);
        let start = joined(before, "/"@);
        let whole = joined(names, "/"@);
        assert(whole.take(names[0].len() as int) == start.take(names[0].len() as int));
        if start.len() > names[0].len() {
            assert(whole[names[0].len() as int] == start[names[0].len() as int]);
        }
    } else {
        assert(joined(names, "/"@).take(names[0].len() as int) == names[0]);
    }
}

/// A path begins with its first segment.
proof fn lemmaFirstSegment(path: Seq<char>)
    ensures
        splitOn(path, '/')[0].len() <= path.len(),
        path.take(splitOn(path, '/')[0].len() as int) == splitOn(path, '/')[0],
        path.len() > 0 && path[0] != '/' ==> splitOn(path, '/')[0].len() > 0,
    decreases path.len(),
{
    if path.len() > 0 {
        let shorter = path.drop_last();
        lemmaFirstSegment(shorter);
        lemmaSplitNonEmpty(shorter, '/');
        let before = splitOn(shorter, '/');
        let first = splitOn(path, '/')[0];
        if path.last() == '/' || before.len() > 1 {
            assert(first == before[0]);
            assert(path.take(first.len() as int) == shorter.take(first.len() as int));
            if path[0] != '/' {
                if shorter.len() == 0 {
                    assert(path[path.len() - 1] == path[0]);
                } else {
                    assert(shorter[0] == path[0]);
                }
            }
        } else {
            assert(before.len() == 1);
            lemmaOnlySegment(shorter);
            assert(first == path);
            assert(path.take(first.len() as int) == path);
        }
    }
}

/// A path without a separator is its only segment.
proof fn lemmaOnlySegment(path: Seq<char>)
    requires
        splitOn(path, '/').len() == 1,
    ensures
        splitOn(path, '/')[0] == path,
    decreases path.len(),
{
    if path.len() > 0 {
        lemmaSplitNonEmpty(path.drop_last(), '/');
        assert(path.last() != '/');
        lemmaOnlySegment(path.drop_last());
    }
}

proof fn lemmaFirstName(segments: Seq<Seq<char>>)
    requires
        segments.len() > 0,
        segments[0].len() > 0,
    ensures
        namingSegments(segments).len() > 0,
        namingSegments(segments)[0] == segments[0],
    decreases segments.len(),
{
    if segments.len() > 1 {
        lemmaFirstName(segments.drop_last());
    } else {
        assert(namingSegments(segments.drop_last()).len() == 0);
        assert(segments.last() == segments[0]);
        assert(namingSegments(segments)[0] == segments[0]);
    }
}

proof fn lemmaNamesAreNaming(names: Seq<Seq<char>>)
    requires
        forall|i: int| 0 <= i < names.len() ==> (#[trigger] names[i]).len() > 0,
    ensures
        namingSegments(names) == names,
    decreases names.len(),
{
    if names.len() > 0 {
        let before = names.drop_last();
        assert forall|i: int| 0 <= i < before.len() implies (#[trigger] before[i]).len() > 0 by {
            assert(before[i] == names[i]);
        }
        lemmaNamesAreNaming(before);
        assert(names[names.len() - 1].len() > 0);
        assert(before.push(names.last()) == names);
    }
}

/// The protocol form of an accepted path holds no backslash, and is accepted again with the same
/// names.
pub proof fn lawProtocolFormIsAccepted(text: Seq<char>)
    ensures
        relativeNames(text) matches Some(names) ==> {
            &&& !joined(names, "/"@).contains('\\')
            &&& relativeNames(joined(names, "/"@)) == Some(names)
        },
{
    if relativeNames(text) is Some {
        let path = slashed(text);
        let segments = splitOn(path, '/');
        let names = namingSegments(segments);
        let form = joined(names, "/"@);
        reveal_strlit("/");
        assert("/"@ == seq!['/']);
        lawAcceptedPathStaysBelow(text);
        assert(!path.contains('\\'));
        lawJoinUndoesSplit(path, '/', '\\');
        lemmaJoinedChars(names, "/"@, '\\');
        assert(slashed(form) == form);
        lawSplitUndoesJoin(names, '/');
        lemmaNamesAreNaming(names);
        lemmaNamesAreShorter(segments);
        lemmaSlashedLength(text);
        assert(path.len() > 0) by {
            if path.len() == 0 {
                assert(text.len() == 0);
            }
        }
        lemmaFirstSegment(path);
        lemmaSplitNonEmpty(path, '/');
        lemmaFirstName(segments);
        lemmaJoinedStart(names);
        let first = names[0];
        assert(form[0] == first[0]) by {
            assert(form.take(first.len() as int)[0] == form[0]);
        }
        assert(path[0] == first[0]) by {
            assert(path.take(first.len() as int)[0] == path[0]);
        }
        if first.len() > 1 {
            assert(form.take(first.len() as int)[1] == form[1]);
            assert(path.take(first.len() as int)[1] == path[1]);
        }
        assert(!isAnchored(form));
        assert(byteLength(form) > 0);
        assert(!names.contains("."@) && !names.contains(".."@));
    }
}

/// A path in the form of the control protocol.
pub fn pathToProtocolString(names: &Vec<String>) -> (result: String)
    ensures
        result@ == joined(views(names@), "/"@),
{
    joinTexts(names, "/")
}

// ---------------------------------------------------------------------------
// The fields of an upload
// ---------------------------------------------------------------------------

/// The fields that an upload may hold.
#[derive(Clone, Copy, Debug, PartialEq, Eq, Structural)]
pub enum ImportField {
    /// Whether a directory is imported.
    Directory,
    /// The path of the next file.
    Path,
    /// The bytes of the file whose path came before.
    File,
}

/// What is known of an upload so far.
#[derive(Debug)]
pub struct ImportSession {
    pub directory: Option<bool>,
    pub pendingPath: Option<Vec<String>>,
    pub root: Option<Vec<String>>,
    pub keys: Vec<String>,
    pub fileCount: usize,
    pub totalBytes: u64,
    pub fileBytes: u64,
}

/// The mathematical value of an upload.
pub struct ImportView {
    pub directory: Option<bool>,
    pub pendingPath: Option<Seq<Seq<char>>>,
    pub root: Option<Seq<Seq<char>>>,
    pub keys: Seq<Seq<char>>,
    pub fileCount: usize,
    pub totalBytes: u64,
    pub fileBytes: u64,
}

impl View for ImportSession {
    type V = ImportView;

    open spec fn view(&self) -> ImportView {
        ImportView {
            directory: self.directory,
            pendingPath: namesView(self.pendingPath),
            root: namesView(self.root),
            keys: views(self.keys@),
            fileCount: self.fileCount,
            totalBytes: self.totalBytes,
            fileBytes: self.fileBytes,
        }
    }
}

/// What holds of every upload: its counts keep their bounds and no path came twice.
pub open spec fn isBoundedImport(session: ImportView) -> bool {
    &&& session.fileCount <= maximumImportedFiles
    &&& session.totalBytes <= maximumImportedTotalBytes
    &&& session.fileBytes <= maximumImportedFileBytes
    &&& session.fileBytes <= session.totalBytes
    &&& session.keys.no_duplicates()
    &&& (session.fileCount > 0 ==> session.root is Some)
    &&& (session.root matches Some(root) ==> root.len() > 0)
    &&& (session.pendingPath matches Some(path) ==> path.len() > 0)
    &&& (session.pendingPath is Some || session.fileCount > 0 ==> session.directory is Some)
    &&& (session.fileCount == 0 ==> session.root is None)
    &&& (session.directory == Some(false) ==> session.fileCount <= 1)
}

/// The field that a name announces, where it may come now: whether a directory is imported comes
/// first and once, a path before its file, a file behind its path.
pub open spec fn announcedField(session: ImportView, name: Option<Seq<char>>) -> Option<
    ImportField,
> {
    match name {
        Some(text) => if text == "directory"@ && session.directory is None && session.fileCount
            == 0 {
            Some(ImportField::Directory)
        } else if text == "path"@ && session.directory is Some && session.pendingPath is None {
            Some(ImportField::Path)
        } else if text == "file"@ && session.pendingPath is Some {
            Some(ImportField::File)
        } else {
            None
        },
        None => None,
    }
}

/// Two texts stand for the two truth values.
pub open spec fn truthOf(text: Seq<char>) -> Option<bool> {
    if text == "true"@ {
        Some(true)
    } else if text == "false"@ {
        Some(false)
    } else {
        None
    }
}

/// The upload with the path of the next file, if it can be used: it stays below the import, and no
/// path that differs only in case came before.
pub open spec fn withPath(session: ImportView, text: Seq<char>) -> Option<ImportView> {
    match relativeNames(text) {
        None => None,
        Some(names) => {
            let key = lowered(joined(names, "/"@));
            if session.keys.contains(key) {
                None
            } else {
                Some(
                    ImportView {
                        pendingPath: Some(names),
                        keys: session.keys.push(key),
                        ..session
                    },
                )
            }
        },
    }
}

/// The root that a file fixes or confirms: all files of a directory share their first name, a single
/// file has no directory.
pub open spec fn confirmedRoot(
    directory: bool,
    path: Seq<Seq<char>>,
    root: Option<Seq<Seq<char>>>,
) -> Option<Seq<Seq<char>>> {
    if directory {
        if path.len() < 2 || (root matches Some(current) && current != seq![path[0]]) {
            None
        } else {
            Some(seq![path[0]])
        }
    } else if path.len() != 1 || root is Some {
        None
    } else {
        Some(path)
    }
}

/// The upload at the start of a file.
pub open spec fn withFile(session: ImportView) -> Option<ImportView> {
    match (session.directory, session.pendingPath) {
        (Some(directory), Some(path)) => match confirmedRoot(directory, path, session.root) {
            Some(root) => if session.fileCount + 1 > maximumImportedFiles {
                None
            } else {
                Some(
                    ImportView {
                        pendingPath: None,
                        root: Some(root),
                        fileCount: (session.fileCount + 1) as usize,
                        fileBytes: 0,
                        ..session
                    },
                )
            },
            None => None,
        },
        _ => None,
    }
}

/// The upload with more bytes of the current file, within the bounds of a file and of the whole.
pub open spec fn withBytes(session: ImportView, count: u64) -> Option<ImportView> {
    if session.fileBytes + count > maximumImportedFileBytes || session.totalBytes + count
        > maximumImportedTotalBytes {
        None
    } else {
        Some(
            ImportView {
                fileBytes: (session.fileBytes + count) as u64,
                totalBytes: (session.totalBytes + count) as u64,
                ..session
            },
        )
    }
}

/// Fixes the root of an import by one more file.
pub fn updateDirectoryRoot(directory: bool, path: &Vec<String>, root: &Option<Vec<String>>) -> (result:
    Option<Vec<String>>)
    ensures
        namesView(result) == confirmedRoot(directory, views(path@), namesView(*root)),
{
    if directory {
        if path.len() < 2 {
            return None;
        }
        assert(views(path@)[0] == path@[0]@);
        match root {
            Some(current) => {
                if current.len() != 1 {
                    assert(views(current@).len() != seq![path@[0]@].len());
                    return None;
                }
                assert(views(current@)[0] == current@[0]@);
                if !equalText(current[0].as_str(), path[0].as_str()) {
                    return None;
                }
            },
            None => {},
        }
        let mut names: Vec<String> = Vec::new();
        names.push(copyText(path[0].as_str()));
        assert(views(names@) == seq![path@[0]@]);
        proof {
            if let Some(current) = namesView(*root) {
                assert(current == seq![path@[0]@]);
            }
        }
        Some(names)
    } else {
        if path.len() != 1 || root.is_some() {
            return None;
        }
        let mut names: Vec<String> = Vec::new();
        names.push(copyText(path[0].as_str()));
        assert(views(names@) == views(path@));
        Some(names)
    }
}

fn containsKey(keys: &Vec<String>, key: &str) -> (result: bool)
    ensures
        result == views(keys@).contains(key@),
{
    let ghost all = views(keys@);
    let mut i: usize = 0;
    while i < keys.len()
        invariant
            i <= keys.len(),
            all == views(keys@),
            forall|k: int| 0 <= k < i ==> #[trigger] all[k] != key@,
        decreases keys.len() - i,
    {
        assert(all[i as int] == keys@[i as int]@);
        if equalText(keys[i].as_str(), key) {
            return true;
        }
        i += 1;
    }
    false
}

/// What an import left behind.
#[derive(Debug)]
pub struct MapLocalImportResult {
    pub localPath: String,
    pub fileCount: usize,
    pub totalBytes: u64,
}

impl ImportSession {
    /// An upload of which nothing is known.
    pub fn new() -> (result: ImportSession)
        ensures
            isBoundedImport(result@),
            result@.directory is None,
            result@.pendingPath is None,
            result@.root is None,
            result@.keys.len() == 0,
            result@.fileCount == 0,
            result@.totalBytes == 0,
            result@.fileBytes == 0,
    {
        ImportSession {
            directory: None,
            pendingPath: None,
            root: None,
            keys: Vec::new(),
            fileCount: 0,
            totalBytes: 0,
            fileBytes: 0,
        }
    }

    /// The field that a name announces, where it may come now.
    pub fn receiveImportFields(&self, name: &Option<String>) -> (result: Result<
        ImportField,
        MapLocalImportError,
    >)
        ensures
            match announcedField(self@, optionalView(*name)) {
                Some(field) => result == Ok::<ImportField, MapLocalImportError>(field),
                None => result == Err::<ImportField, MapLocalImportError>(
                    MapLocalImportError::InvalidRequest,
                ),
            },
    {
        match name {
            Some(text) => if equalText(text.as_str(), "directory") && self.directory.is_none()
                && self.fileCount == 0 {
                Ok(ImportField::Directory)
            } else if equalText(text.as_str(), "path") && self.directory.is_some()
                && self.pendingPath.is_none() {
                Ok(ImportField::Path)
            } else if equalText(text.as_str(), "file") && self.pendingPath.is_some() {
                Ok(ImportField::File)
            } else {
                Err(MapLocalImportError::InvalidRequest)
            },
            None => Err(MapLocalImportError::InvalidRequest),
        }
    }

    /// Takes whether a directory is imported.
    pub fn takeDirectory(&mut self, text: &str) -> (result: Result<(), MapLocalImportError>)
        requires
            isBoundedImport(old(self)@),
            old(self)@.directory is None,
        ensures
            isBoundedImport(final(self)@),
            match truthOf(text@) {
                Some(value) => result is Ok && final(self)@ == (ImportView {
                    directory: Some(value),
                    ..old(self)@
                }),
                None => result == Err::<(), MapLocalImportError>(
                    MapLocalImportError::InvalidRequest,
                ) && final(self)@ == old(self)@,
            },
    {
        proof {
            reveal_strlit("true");
            reveal_strlit("false");
        }
        if equalText(text, "true") {
            self.directory = Some(true);
            Ok(())
        } else if equalText(text, "false") {
            self.directory = Some(false);
            Ok(())
        } else {
            Err(MapLocalImportError::InvalidRequest)
        }
    }

    /// Takes the path of the next file.
    pub fn takePath(&mut self, text: &str) -> (result: Result<(), MapLocalImportError>)
        requires
            isBoundedImport(old(self)@),
            old(self)@.directory is Some,
        ensures
            isBoundedImport(final(self)@),
            match withPath(old(self)@, text@) {
                Some(next) => result is Ok && final(self)@ == next,
                None => result == Err::<(), MapLocalImportError>(
                    MapLocalImportError::InvalidRequest,
                ) && final(self)@ == old(self)@,
            },
    {
        match normalizeRelativePath(text) {
            Err(error) => Err(error),
            Ok(names) => {
                let key = lowerText(pathToProtocolString(&names).as_str());
                if containsKey(&self.keys, key.as_str()) {
                    return Err(MapLocalImportError::InvalidRequest);
                }
                let ghost before = self.keys@;
                let ghost added = key@;
                self.keys.push(key);
                assert(views(self.keys@) == views(before).push(added));
                self.pendingPath = Some(names);
                Ok(())
            },
        }
    }

    /// Begins a file and gives the names along its path.
    pub fn beginFile(&mut self) -> (result: Result<Vec<String>, MapLocalImportError>)
        requires
            isBoundedImport(old(self)@),
        ensures
            isBoundedImport(final(self)@),
            match withFile(old(self)@) {
                Some(next) => result is Ok && final(self)@ == next && old(self)@.pendingPath == Some(
                    views(result->Ok_0@),
                ),
                None => result == Err::<Vec<String>, MapLocalImportError>(
                    MapLocalImportError::InvalidRequest,
                ),
            },
    {
        let directory = match self.directory {
            Some(directory) => directory,
            None => return Err(MapLocalImportError::InvalidRequest),
        };
        if self.fileCount >= maximumImportedFiles {
            return Err(MapLocalImportError::InvalidRequest);
        }
        match self.pendingPath.take() {
            None => Err(MapLocalImportError::InvalidRequest),
            Some(path) => match updateDirectoryRoot(directory, &path, &self.root) {
                None => {
                    self.pendingPath = Some(path);
                    Err(MapLocalImportError::InvalidRequest)
                },
                Some(root) => {
                    self.root = Some(root);
                    self.fileCount = self.fileCount + 1;
                    self.fileBytes = 0;
                    Ok(path)
                },
            },
        }
    }

    /// Counts more bytes of the current file before they are written.
    pub fn writeImportedFile(&mut self, count: u64) -> (result: Result<(), MapLocalImportError>)
        requires
            isBoundedImport(old(self)@),
        ensures
            isBoundedImport(final(self)@),
            match withBytes(old(self)@, count) {
                Some(next) => result is Ok && final(self)@ == next,
                None => result == Err::<(), MapLocalImportError>(
                    MapLocalImportError::InvalidRequest,
                ) && final(self)@ == old(self)@,
            },
    {
        if count > maximumImportedFileBytes - self.fileBytes || count > maximumImportedTotalBytes
            - self.totalBytes {
            return Err(MapLocalImportError::InvalidRequest);
        }
        self.fileBytes = self.fileBytes + count;
        self.totalBytes = self.totalBytes + count;
        Ok(())
    }

    /// Ends an upload: no path may be left without its file, and there must be a file.
    pub fn importMultipart(&self, importIdentifier: u128) -> (result: Result<
        MapLocalImportResult,
        MapLocalImportError,
    >)
        requires
            isBoundedImport(self@),
        ensures
            match result {
                Ok(imported) => {
                    &&& self@.pendingPath is None
                    &&& self@.fileCount > 0
                    &&& imported.localPath@ == "imports/"@ + canonicalForm(importIdentifier) + "/"@
                        + joined(self@.root->0, "/"@)
                    &&& imported.fileCount == self@.fileCount
                    &&& imported.totalBytes == self@.totalBytes
                },
                Err(error) => (self@.pendingPath is Some || self@.fileCount == 0) && error
                    == MapLocalImportError::InvalidRequest,
            },
    {
        if self.pendingPath.is_some() || self.fileCount == 0 {
            return Err(MapLocalImportError::InvalidRequest);
        }
        match &self.root {
            None => Err(MapLocalImportError::InvalidRequest),
            Some(root) => {
                let base = concatThree("imports/", canonicalText(importIdentifier).as_str(), "/");
                let path = pathToProtocolString(root);
                Ok(
                    MapLocalImportResult {
                        localPath: concatText(base.as_str(), path.as_str()),
                        fileCount: self.fileCount,
                        totalBytes: self.totalBytes,
                    },
                )
            },
        }
    }
}

/// The files of a directory import share one root: once it is fixed, a file under another name is
/// refused.
pub proof fn lawDirectoryHasOneRoot(
    first: Seq<Seq<char>>,
    second: Seq<Seq<char>>,
    root: Option<Seq<Seq<char>>>,
)
    requires
        confirmedRoot(true, first, root) is Some,
        confirmedRoot(true, second, confirmedRoot(true, first, root)) is Some,
    ensures
        first[0] == second[0],
        confirmedRoot(true, second, confirmedRoot(true, first, root)) == confirmedRoot(
            true,
            first,
            root,
        ),
{
    let one = seq![first[0]];
    assert(one[0] == seq![second[0]][0]);
}

/// A name for the place where an upload is gathered before it is published.
pub fn stagingName(importIdentifier: u128) -> (result: String)
    ensures
        result@ == "."@ + canonicalForm(importIdentifier) + ".staging"@,
{
    concatThree(".", canonicalText(importIdentifier).as_str(), ".staging")
}

/// The places of one upload, by their names in the directory of imports.
#[derive(Debug)]
pub struct ImportPlaces {
    pub importIdentifier: u128,
    /// Where the upload is gathered.
    pub staging: String,
    /// Where it is published as a whole.
    pub published: String,
}

/// Places that no other upload uses.
pub fn newImportPlaces() -> (result: ImportPlaces)
    ensures
        isRandomIdentifier(result.importIdentifier),
        result.staging@ == "."@ + canonicalForm(result.importIdentifier) + ".staging"@,
        result.published@ == canonicalForm(result.importIdentifier),
{
    let importIdentifier = newIdentifier();
    ImportPlaces {
        importIdentifier,
        staging: stagingName(importIdentifier),
        published: canonicalText(importIdentifier),
    }
}

/// Names with slashes between them are a relative path, and are read as those names: every path of proper
/// names within the length is accepted.
pub proof fn lawNamesMakeAPath(names: Seq<Seq<char>>)
    requires
        names.len() > 0,
        forall|i: int|
            0 <= i < names.len() ==> (#[trigger] names[i]).len() > 0 && names[i] != "."@ && names[i]
                != ".."@ && !names[i].contains('/') && !names[i].contains('\\'),
        0 < byteLength(joined(names, seq!['/'])) <= 4096,
        !(names[0].len() > 1 && names[0][1] == ':'),
    ensures
        relativeNames(joined(names, seq!['/'])) == Some(names),
{
    let path = joined(names, seq!['/']);
    lawSplitUndoesJoin(names, '/');
    assert(!seq!['/'].contains('\\')) by {
        assert(seq!['/'][0] == '/');
    }
    lemmaJoinedChars(names, seq!['/'], '\\');
    assert(slashed(path) =~= path) by {
        assert forall|i: int| 0 <= i < path.len() implies slashed(path)[i] == path[i] by {
            assert(path.contains(path[i]));
        }
    }
    lemmaAllNaming(names);
    reveal_strlit("/");
    assert("/"@ =~= seq!['/']);
    lemmaJoinedStart(names);
    assert(path.take(names[0].len() as int)[0] == names[0][0]);
    assert(names[0].contains(names[0][0]));
    if path.len() > 1 && path[1] == ':' {
        if names[0].len() > 1 {
            assert(path.take(names[0].len() as int)[1] == names[0][1]);
        } else {
            assert(path[1] == '/');
        }
    }
    assert(!names.contains("."@)) by {
        if names.contains("."@) {
            let k = choose|k: int| 0 <= k < names.len() && names[k] == "."@;
            assert(names[k] != "."@);
        }
    }
    assert(!names.contains(".."@)) by {
        if names.contains(".."@) {
            let k = choose|k: int| 0 <= k < names.len() && names[k] == ".."@;
            assert(names[k] != ".."@);
        }
    }
}

proof fn lemmaAllNaming(names: Seq<Seq<char>>)
    requires
        forall|i: int| 0 <= i < names.len() ==> (#[trigger] names[i]).len() > 0,
    ensures
        namingSegments(names) == names,
    decreases names.len(),
{
    if names.len() > 0 {
        let shorter = names.drop_last();
        assert forall|i: int| 0 <= i < shorter.len() implies (#[trigger] shorter[i]).len() > 0 by {
            assert(shorter[i] == names[i]);
        }
        lemmaAllNaming(shorter);
        assert(names[names.len() - 1].len() > 0);
        assert(shorter.push(names.last()) =~= names);
    } else {
        assert(names =~= Seq::<Seq<char>>::empty());
    }
}

/// Either slash separates, and a path that is anchored, goes up, stays in place, is empty or is too long is
/// refused.
pub proof fn lawSuspectPathIsRefused(text: Seq<char>, other: Seq<char>)
    ensures
        slashed(text) == slashed(other) && byteLength(text) == byteLength(other) ==> relativeNames(
            text,
        ) == relativeNames(other),
        text.len() > 0 && (text[0] == '/' || text[0] == '\\') ==> relativeNames(text) is None,
        text.len() > 1 && text[1] == ':' && ('a' <= text[0] <= 'z' || 'A' <= text[0] <= 'Z')
            ==> relativeNames(text) is None,
        splitOn(slashed(text), '/').contains(".."@) || splitOn(slashed(text), '/').contains("."@)
            ==> relativeNames(text) is None,
        byteLength(text) == 0 || byteLength(text) > 4096 ==> relativeNames(text) is None,
        forall|i: int|
            0 <= i < text.len() ==> #[trigger] slashed(text)[i] == if text[i] == '\\' {
                '/'
            } else {
                text[i]
            },
{
}

/// The fields of an import come in their order: first whether it is a directory, then for each file its path
/// and its bytes.
pub proof fn lawImportFieldsComeInOrder(session: ImportView, name: Seq<char>)
    ensures
        announcedField(session, Some(name)) == Some(ImportField::Directory) <==> name
            == "directory"@ && session.directory is None && session.fileCount == 0,
        announcedField(session, Some(name)) == Some(ImportField::Path) <==> name == "path"@
            && session.directory is Some && session.pendingPath is None,
        announcedField(session, Some(name)) == Some(ImportField::File) <==> name == "file"@
            && session.pendingPath is Some,
        announcedField(session, None) is None,
        truthOf("true"@) == Some(true),
        truthOf(name) == Some(true) ==> name == "true"@,
        truthOf(name) == Some(false) <==> name == "false"@,
{
    reveal_strlit("directory");
    reveal_strlit("path");
    reveal_strlit("file");
    reveal_strlit("true");
    reveal_strlit("false");
    assert("directory"@.len() == 9 && "path"@[0] == 'p' && "file"@[0] == 'f');
    assert("true"@.len() == 4 && "false"@.len() == 5 && "path"@.len() == 4 && "file"@.len() == 4);
}

/// A path comes once in an import, whatever the case of its letters, and an accepted one waits for its bytes.
pub proof fn lawPathComesOnce(session: ImportView, text: Seq<char>, again: Seq<char>)
    ensures
        withPath(session, text) matches Some(next) ==> {
            &&& next.pendingPath == relativeNames(text) && relativeNames(text) is Some
            &&& next.fileCount == session.fileCount && next.totalBytes == session.totalBytes
            &&& relativeNames(again) is Some && lowered(joined(relativeNames(again)->0, "/"@))
                == lowered(joined(relativeNames(text)->0, "/"@)) ==> withPath(next, again) is None
        },
        relativeNames(text) is None ==> withPath(session, text) is None,
        relativeNames(text) matches Some(names) ==> (!session.keys.contains(
            lowered(joined(names, "/"@)),
        ) ==> withPath(session, text) is Some),
{
    if let Some(names) = relativeNames(text) {
        let key = lowered(joined(names, "/"@));
        let keys = session.keys.push(key);
        assert(keys[keys.len() - 1] == key);
        assert(keys.contains(key));
    }
}

/// A directory is imported as files below its one root, a single file as itself; anything else is refused.
pub proof fn lawImportHasItsShape(path: Seq<Seq<char>>, root: Option<Seq<Seq<char>>>)
    ensures
        confirmedRoot(true, path, None) is Some <==> path.len() >= 2,
        confirmedRoot(false, path, None) is Some <==> path.len() == 1,
        confirmedRoot(false, path, None) is Some ==> confirmedRoot(false, path, None) == Some(path),
        confirmedRoot(true, path, root) matches Some(found) ==> found == seq![path[0]],
        root is Some ==> confirmedRoot(false, path, root) is None,
        path.len() >= 2 && root == Some(seq![path[0]]) ==> confirmedRoot(true, path, root) == root,
        path.len() >= 2 && root is Some && root != Some(seq![path[0]]) ==> confirmedRoot(
            true,
            path,
            root,
        ) is None,
{
}

/// Files are counted and their bytes are summed up, up to two thousand files, 64 MiB each and 480 MiB in all.
pub proof fn lawImportIsCounted(session: ImportView, count: u64)
    ensures
        withFile(session) matches Some(next) ==> next.fileCount == session.fileCount + 1
            && next.fileBytes == 0 && next.totalBytes == session.totalBytes && next.pendingPath is None
            && next.keys == session.keys && next.fileCount <= 2000,
        session.directory == Some(false) && session.root is None && session.fileCount == 0 && (
        session.pendingPath matches Some(path) && path.len() == 1) ==> withFile(session) is Some,
        session.directory == Some(true) && session.root is None && session.fileCount < 2000 && (
        session.pendingPath matches Some(path) && path.len() >= 2) ==> withFile(session) is Some,
        session.pendingPath is None || session.directory is None ==> withFile(session) is None,
        withBytes(session, count) is Some <==> session.fileBytes + count <= 64 * 1024 * 1024
            && session.totalBytes + count <= 480 * 1024 * 1024,
        withBytes(session, count) matches Some(next) ==> next.fileBytes == session.fileBytes + count
            && next.totalBytes == session.totalBytes + count && next.fileCount == session.fileCount,
        importApiError(MapLocalImportError::InvalidRequest).status == 400,
        importApiError(MapLocalImportError::Storage).status == 500,
{
}

/// An import never holds more than two thousand files, 480 MiB in all or 64 MiB in one of them, and no file twice.
pub proof fn lawImportKeepsItsBounds(session: ImportView, i: int, j: int)
    requires
        isBoundedImport(session),
    ensures
        session.fileCount <= 2000,
        session.totalBytes <= 480 * 1024 * 1024,
        session.fileBytes <= 64 * 1024 * 1024,
        session.fileBytes <= session.totalBytes,
        0 <= i < j < session.keys.len() ==> session.keys[i] != session.keys[j],
        session.root is Some <==> session.fileCount > 0,
        session.directory == Some(false) ==> session.fileCount <= 1,
{
}

} // verus!
