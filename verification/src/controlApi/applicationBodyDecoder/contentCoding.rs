//! Content codings: what a message declares and how each coding is undone.

use crate::text::{
    asciiLowerText, asciiLowered, equalText, joined, lawSplitUndoesJoin, splitOn, splitText, trimText,
    trimmed, views,
};
use std::io::Read;
use vstd::prelude::*;

verus! {

/// The largest decoded body in bytes.
pub const decodedBodyLimitBytes: u64 = 268435456;

/// The buffer of the brotli decoder in bytes.
pub const brotliBufferBytes: usize = 65536;

/// Whether a coding can be undone.
pub open spec fn isKnownCoding(coding: Seq<char>) -> bool {
    ||| coding == "gzip"@
    ||| coding == "x-gzip"@
    ||| coding == "deflate"@
    ||| coding == "br"@
    ||| coding == "zstd"@
}

/// The codings that tokens declare, in order. Empty tokens and `identity` declare none; one unknown
/// token makes the whole declaration unusable.
pub open spec fn codingsOf(tokens: Seq<Seq<char>>) -> Option<Seq<Seq<char>>>
    decreases tokens.len(),
{
    if tokens.len() == 0 {
        Some(Seq::empty())
    } else {
        match codingsOf(tokens.drop_last()) {
            None => None,
            Some(before) => {
                let token = trimmed(tokens.last());
                let coding = asciiLowered(token);
                if token.len() == 0 || coding == "identity"@ {
                    Some(before)
                } else if isKnownCoding(coding) {
                    Some(before.push(coding))
                } else {
                    None
                }
            },
        }
    }
}

/// The codings that a header declares, in the order in which they were applied.
pub open spec fn declaredCodings(contentEncoding: Seq<char>) -> Option<Seq<Seq<char>>> {
    codingsOf(splitOn(contentEncoding, ','))
}

fn knownCoding(coding: &str) -> (result: bool)
    ensures
        result == isKnownCoding(coding@),
{
    equalText(coding, "gzip") || equalText(coding, "x-gzip") || equalText(coding, "deflate")
        || equalText(coding, "br") || equalText(coding, "zstd")
}

/// The codings that a header declares.
pub fn parseContentCodings(contentEncoding: &str) -> (result: Option<Vec<String>>)
    ensures
        match result {
            Some(codings) => declaredCodings(contentEncoding@) == Some(views(codings@)),
            None => declaredCodings(contentEncoding@) is None,
        },
{
    let tokens = splitText(contentEncoding, ',');
    let ghost all = splitOn(contentEncoding@, ',');
    let mut codings: Vec<String> = Vec::new();
    let mut i: usize = 0;
    assert(all.take(0).len() == 0);
    assert(views(codings@) == Seq::<Seq<char>>::empty());
    while i < tokens.len()
        invariant
            i <= tokens.len(),
            all == splitOn(contentEncoding@, ','),
            views(tokens@) == all,
            codingsOf(all.take(i as int)) == Some(views(codings@)),
        decreases tokens.len() - i,
    {
        assert(all.take(i + 1).drop_last() == all.take(i as int));
        assert(all.take(i + 1).last() == tokens@[i as int]@);
        let token = trimText(tokens[i].as_str());
        if !token.as_str().is_empty() {
            let coding = asciiLowerText(token.as_str());
            if !equalText(coding.as_str(), "identity") {
                if !knownCoding(coding.as_str()) {
                    proof {
                        lemmaUnknownCoding(all, i + 1);
                    }
                    return None;
                }
                let ghost before = codings@;
                let ghost added = coding@;
                codings.push(coding);
                assert(views(codings@) == views(before).push(added));
            }
        }
        i += 1;
    }
    assert(all.take(i as int) == all);
    Some(codings)
}

proof fn lemmaUnknownCoding(tokens: Seq<Seq<char>>, upTo: int)
    requires
        0 <= upTo <= tokens.len(),
        codingsOf(tokens.take(upTo)) is None,
    ensures
        codingsOf(tokens) is None,
    decreases tokens.len() - upTo,
{
    if upTo == tokens.len() {
        assert(tokens.take(upTo) == tokens);
    } else {
        assert(tokens.take(upTo + 1).drop_last() == tokens.take(upTo));
        lemmaUnknownCoding(tokens, upTo + 1);
    }
}

proof fn lemmaDeclaredAreKnown(tokens: Seq<Seq<char>>)
    ensures
        codingsOf(tokens) matches Some(codings) ==> forall|i: int|
            0 <= i < codings.len() ==> isKnownCoding(#[trigger] codings[i]),
    decreases tokens.len(),
{
    if tokens.len() > 0 {
        lemmaDeclaredAreKnown(tokens.drop_last());
    }
}

/// Every coding of a usable declaration can be undone.
pub proof fn lawDeclaredCodingsAreKnown(contentEncoding: Seq<char>)
    ensures
        declaredCodings(contentEncoding) matches Some(codings) ==> forall|i: int|
            0 <= i < codings.len() ==> isKnownCoding(#[trigger] codings[i]),
{
    lemmaDeclaredAreKnown(splitOn(contentEncoding, ','));
}

// ---------------------------------------------------------------------------
// Decoders
// ---------------------------------------------------------------------------

/// The first bytes of what a gzip stream holds; `None` where it is broken before.
pub uninterp spec fn gzipOutput(bytes: Seq<u8>, limit: u64) -> Option<Seq<u8>>;

/// The first bytes of what a zlib stream holds; `None` where it is broken before.
pub uninterp spec fn zlibOutput(bytes: Seq<u8>, limit: u64) -> Option<Seq<u8>>;

/// The first bytes of what a bare deflate stream holds; `None` where it is broken before.
pub uninterp spec fn deflateOutput(bytes: Seq<u8>, limit: u64) -> Option<Seq<u8>>;

/// The first bytes of what a brotli stream holds; `None` where it is broken before.
pub uninterp spec fn brotliOutput(bytes: Seq<u8>, bufferBytes: usize, limit: u64) -> Option<Seq<u8>>;

/// The first bytes of what a zstd stream holds; `None` where it is broken before.
pub uninterp spec fn zstdOutput(bytes: Seq<u8>, limit: u64) -> Option<Seq<u8>>;

/// The bytes of an optional buffer.
pub open spec fn bytesView(bytes: Option<Vec<u8>>) -> Option<Seq<u8>> {
    match bytes {
        Some(bytes) => Some(bytes@),
        None => None,
    }
}

/// Undoes gzip, up to a number of bytes.
///
/// Trusted: `flate2::read::GzDecoder`, read to its end or to the limit. The output depends on the
/// bytes and the limit alone.
#[verifier::external_body]
pub(crate) fn readGzip(bytes: &[u8], limit: u64) -> (result: Option<Vec<u8>>)
    ensures
        bytesView(result) == gzipOutput(bytes@, limit),
        result matches Some(output) ==> output@.len() <= limit,
{
    let mut output = Vec::new();
    flate2::read::GzDecoder::new(bytes).take(limit).read_to_end(&mut output).ok()?;
    Some(output)
}

/// Undoes deflate in its zlib wrapping, up to a number of bytes.
///
/// Trusted: `flate2::read::ZlibDecoder`, read to its end or to the limit. The output depends on the
/// bytes and the limit alone.
#[verifier::external_body]
pub(crate) fn readZlib(bytes: &[u8], limit: u64) -> (result: Option<Vec<u8>>)
    ensures
        bytesView(result) == zlibOutput(bytes@, limit),
        result matches Some(output) ==> output@.len() <= limit,
{
    let mut output = Vec::new();
    flate2::read::ZlibDecoder::new(bytes).take(limit).read_to_end(&mut output).ok()?;
    Some(output)
}

/// Undoes bare deflate, up to a number of bytes.
///
/// Trusted: `flate2::read::DeflateDecoder`, read to its end or to the limit. The output depends on
/// the bytes and the limit alone.
#[verifier::external_body]
pub(crate) fn readDeflate(bytes: &[u8], limit: u64) -> (result: Option<Vec<u8>>)
    ensures
        bytesView(result) == deflateOutput(bytes@, limit),
        result matches Some(output) ==> output@.len() <= limit,
{
    let mut output = Vec::new();
    flate2::read::DeflateDecoder::new(bytes).take(limit).read_to_end(&mut output).ok()?;
    Some(output)
}

/// Undoes brotli, up to a number of bytes.
///
/// Trusted: `brotli::Decompressor`, read to its end or to the limit. The output depends on the
/// bytes, the size of its buffer and the limit alone.
#[verifier::external_body]
pub(crate) fn readBrotli(bytes: &[u8], bufferBytes: usize, limit: u64) -> (result: Option<Vec<u8>>)
    requires
        bufferBytes > 0,
    ensures
        bytesView(result) == brotliOutput(bytes@, bufferBytes, limit),
        result matches Some(output) ==> output@.len() <= limit,
{
    let mut output = Vec::new();
    brotli::Decompressor::new(bytes, bufferBytes).take(limit).read_to_end(&mut output).ok()?;
    Some(output)
}

/// Undoes zstd, up to a number of bytes.
///
/// Trusted: `zstd::stream::read::Decoder`, read to its end or to the limit. The output depends on
/// the bytes and the limit alone.
#[verifier::external_body]
pub(crate) fn readZstd(bytes: &[u8], limit: u64) -> (result: Option<Vec<u8>>)
    ensures
        bytesView(result) == zstdOutput(bytes@, limit),
        result matches Some(output) ==> output@.len() <= limit,
{
    let mut output = Vec::new();
    zstd::stream::read::Decoder::new(bytes).ok()?.take(limit).read_to_end(&mut output).ok()?;
    Some(output)
}

/// The whole of an output that keeps the largest size; what is longer is dropped, never cut.
pub open spec fn wholeOutput(output: Option<Seq<u8>>) -> Option<Seq<u8>> {
    match output {
        Some(bytes) => if bytes.len() <= decodedBodyLimitBytes {
            Some(bytes)
        } else {
            None
        },
        None => None,
    }
}

/// Keeps an output that was read one byte past the largest size, where it is whole.
pub fn readDecoded(output: Option<Vec<u8>>) -> (result: Option<Vec<u8>>)
    ensures
        bytesView(result) == wholeOutput(bytesView(output)),
{
    match output {
        Some(bytes) => if bytes.len() as u64 <= decodedBodyLimitBytes {
            Some(bytes)
        } else {
            None
        },
        None => None,
    }
}

/// How far an output is read.
pub open spec fn readLimit() -> u64 {
    (decodedBodyLimitBytes + 1) as u64
}

/// What a deflate body holds: the wrapped form, and the bare one only where the body is not in the
/// wrapped form. A wrapped body that is too long holds nothing.
pub open spec fn deflateBody(wrapped: Option<Seq<u8>>, bare: Option<Seq<u8>>) -> Option<Seq<u8>> {
    match wrapped {
        Some(bytes) => wholeOutput(wrapped),
        None => wholeOutput(bare),
    }
}

/// What a body in one coding holds.
pub open spec fn codingOutput(coding: Seq<char>, bytes: Seq<u8>) -> Option<Seq<u8>> {
    if coding == "gzip"@ || coding == "x-gzip"@ {
        wholeOutput(gzipOutput(bytes, readLimit()))
    } else if coding == "deflate"@ {
        deflateBody(zlibOutput(bytes, readLimit()), deflateOutput(bytes, readLimit()))
    } else if coding == "br"@ {
        wholeOutput(brotliOutput(bytes, brotliBufferBytes, readLimit()))
    } else if coding == "zstd"@ {
        wholeOutput(zstdOutput(bytes, readLimit()))
    } else {
        None
    }
}

/// Undoes one coding.
pub fn decodeContentCoding(coding: &str, bytes: &Vec<u8>) -> (result: Option<Vec<u8>>)
    ensures
        bytesView(result) == codingOutput(coding@, bytes@),
{
    let limit: u64 = decodedBodyLimitBytes + 1;
    if equalText(coding, "gzip") || equalText(coding, "x-gzip") {
        readDecoded(readGzip(bytes.as_slice(), limit))
    } else if equalText(coding, "deflate") {
        match readZlib(bytes.as_slice(), limit) {
            Some(output) => readDecoded(Some(output)),
            None => readDecoded(readDeflate(bytes.as_slice(), limit)),
        }
    } else if equalText(coding, "br") {
        readDecoded(readBrotli(bytes.as_slice(), brotliBufferBytes, limit))
    } else if equalText(coding, "zstd") {
        readDecoded(readZstd(bytes.as_slice(), limit))
    } else {
        None
    }
}

/// What a body in several codings holds: the last one applied is undone first.
pub open spec fn undoneCodings(codings: Seq<Seq<char>>, bytes: Seq<u8>) -> Option<Seq<u8>>
    decreases codings.len(),
{
    if codings.len() == 0 {
        Some(bytes)
    } else {
        match codingOutput(codings.last(), bytes) {
            Some(output) => undoneCodings(codings.drop_last(), output),
            None => None,
        }
    }
}

/// Undoes several codings.
pub fn undoCodings(codings: &Vec<String>, bytes: &Vec<u8>) -> (result: Option<Vec<u8>>)
    ensures
        bytesView(result) == undoneCodings(views(codings@), bytes@),
{
    let ghost all = views(codings@);
    let mut current = copyBytes(bytes);
    let mut left: usize = codings.len();
    assert(all.take(left as int) == all);
    while left > 0
        invariant
            left <= codings.len(),
            all == views(codings@),
            undoneCodings(all, bytes@) == undoneCodings(all.take(left as int), current@),
        decreases left,
    {
        assert(all.take(left as int).last() == codings@[left - 1]@);
        assert(all.take(left as int).drop_last() == all.take(left - 1));
        match decodeContentCoding(codings[left - 1].as_str(), &current) {
            Some(output) => {
                current = output;
            },
            None => {
                return None;
            },
        }
        left -= 1;
    }
    Some(current)
}

/// An independent copy of bytes.
pub fn copyBytes(bytes: &Vec<u8>) -> (result: Vec<u8>)
    ensures
        result@ == bytes@,
{
    let mut result: Vec<u8> = Vec::new();
    let mut i: usize = 0;
    while i < bytes.len()
        invariant
            i <= bytes.len(),
            result@ == bytes@.take(i as int),
        decreases bytes.len() - i,
    {
        result.push(bytes[i]);
        i += 1;
        assert(result@ == bytes@.take(i as int));
    }
    assert(bytes@.take(i as int) == bytes@);
    result
}

/// Codings that were applied in two steps are undone in the opposite order.
pub proof fn lawCodingsAreUndoneBackwards(
    first: Seq<Seq<char>>,
    second: Seq<Seq<char>>,
    bytes: Seq<u8>,
)
    ensures
        undoneCodings(first + second, bytes) == match undoneCodings(second, bytes) {
            Some(inner) => undoneCodings(first, inner),
            None => None,
        },
    decreases second.len(),
{
    if second.len() == 0 {
        assert(first + second == first);
    } else {
        assert((first + second).last() == second.last());
        assert((first + second).drop_last() == first + second.drop_last());
        match codingOutput(second.last(), bytes) {
            Some(output) => {
                lawCodingsAreUndoneBackwards(first, second.drop_last(), output);
            },
            None => {},
        }
    }
}

/// A list of codings is read name by name, in any case and with blanks around: each known one is taken, in its
/// order, `identity` and an empty name say nothing, and a name that is not known makes the list unreadable.
pub proof fn lawCodingsAreListed(tokens: Seq<Seq<char>>, token: Seq<char>)
    ensures
        codingsOf(Seq::empty()) == Some(Seq::<Seq<char>>::empty()),
        codingsOf(tokens) matches Some(before) ==> {
            let name = asciiLowered(trimmed(token));
            &&& name == "gzip"@ || name == "x-gzip"@ || name == "deflate"@ || name == "br"@ || name
                == "zstd"@ ==> codingsOf(tokens.push(token)) == Some(before.push(name))
            &&& name == "identity"@ || name.len() == 0 ==> codingsOf(tokens.push(token)) == Some(
                before,
            )
            &&& name.len() > 0 && name != "gzip"@ && name != "x-gzip"@ && name != "deflate"@ && name
                != "br"@ && name != "zstd"@ && name != "identity"@ ==> codingsOf(
                tokens.push(token),
            ) is None
        },
        codingsOf(tokens) is None ==> codingsOf(tokens.push(token)) is None,
        tokens.len() > 0 && (forall|i: int|
            0 <= i < tokens.len() ==> !(#[trigger] tokens[i]).contains(',')) ==> declaredCodings(
            joined(tokens, seq![',']),
        ) == codingsOf(tokens),
{
    assert(tokens.push(token).drop_last() == tokens);
    assert(tokens.push(token).last() == token);
    assert(asciiLowered(trimmed(token)).len() == trimmed(token).len());
    reveal_strlit("gzip");
    reveal_strlit("x-gzip");
    reveal_strlit("deflate");
    reveal_strlit("br");
    reveal_strlit("zstd");
    reveal_strlit("identity");
    assert("gzip"@[0] == 'g' && "x-gzip"@[0] == 'x' && "deflate"@[0] == 'd' && "br"@[0] == 'b'
        && "zstd"@[0] == 'z' && "identity"@[0] == 'i');
    if tokens.len() > 0 && (forall|i: int|
        0 <= i < tokens.len() ==> !(#[trigger] tokens[i]).contains(',')) {
        lawSplitUndoesJoin(tokens, ',');
    }
}

/// Each coding is undone by its own decoder, and what comes out counts only whole: up to the largest size. A
/// body called deflated may also lack its wrapping, which is tried only where it cannot be unwrapped.
pub proof fn lawCodingIsUndoneByItsDecoder(bytes: Seq<u8>, output: Option<Seq<u8>>)
    ensures
        ({
            let limit = (256 * 1024 * 1024 + 1) as u64;
            let whole = output is Some && output->0.len() <= 256 * 1024 * 1024;
            &&& gzipOutput(bytes, limit) == output ==> codingOutput("gzip"@, bytes) == if whole {
                output
            } else {
                None
            } && codingOutput("x-gzip"@, bytes) == codingOutput("gzip"@, bytes)
            &&& brotliOutput(bytes, brotliBufferBytes, limit) == output ==> codingOutput(
                "br"@,
                bytes,
            ) == if whole {
                output
            } else {
                None
            }
            &&& zstdOutput(bytes, limit) == output ==> codingOutput("zstd"@, bytes) == if whole {
                output
            } else {
                None
            }
            &&& zlibOutput(bytes, limit) == output && output is Some ==> codingOutput(
                "deflate"@,
                bytes,
            ) == if whole {
                output
            } else {
                None
            }
            &&& zlibOutput(bytes, limit) is None && deflateOutput(bytes, limit) == output
                ==> codingOutput("deflate"@, bytes) == if whole {
                output
            } else {
                None
            }
        }),
        undoneCodings(Seq::empty(), bytes) == Some(bytes),
{
    reveal_strlit("gzip");
    reveal_strlit("x-gzip");
    reveal_strlit("deflate");
    reveal_strlit("br");
    reveal_strlit("zstd");
    assert("gzip"@[0] == 'g' && "x-gzip"@[0] == 'x' && "deflate"@[0] == 'd' && "br"@[0] == 'b'
        && "zstd"@[0] == 'z');
}

} // verus!
