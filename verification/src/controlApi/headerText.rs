//! Which texts may stand in HTTP headers.

use vstd::prelude::*;
use vstd::utf8::encode_utf8;

verus! {

/// Whether a byte may stand in a header value: anything from a space on but DEL, or a tab.
pub open spec fn isHeaderValueByte(byte: u8) -> bool {
    (byte >= 32 && byte != 127) || byte == 9
}

/// Whether a text is a header value.
pub open spec fn isHeaderValue(text: Seq<char>) -> bool {
    forall|i: int|
        0 <= i < encode_utf8(text).len() ==> isHeaderValueByte(#[trigger] encode_utf8(text)[i])
}

/// Whether a text is a header value.
///
/// Trusted: `http::HeaderValue::from_str` accepts a text exactly where each byte of its UTF-8 form
/// is a tab or is at least 32 and not 127.
#[verifier::external_body]
pub(crate) fn isValidHeaderValue(text: &str) -> (result: bool)
    ensures
        result == isHeaderValue(text@),
{
    http::HeaderValue::from_str(text).is_ok()
}

/// A byte may stand in a header's value where it is a tab or no control byte.
pub proof fn lawValueBytes(byte: u8)
    ensures
        isHeaderValueByte(byte) <==> byte == 0x09 || 0x20 <= byte <= 0x7e || byte >= 0x80,
{
}

/// A text can be a header's value where none of its bytes is a control byte other than the tab.
pub proof fn lawValueHoldsNoControls(text: Seq<char>, i: int)
    ensures
        0 <= i < encode_utf8(text).len() && (encode_utf8(text)[i] == 0x7f || (encode_utf8(text)[i] < 0x20
            && encode_utf8(text)[i] != 0x09)) ==> !isHeaderValue(text),
        (forall|k: int|
            0 <= k < encode_utf8(text).len() ==> #[trigger] encode_utf8(text)[k] == 0x09 || (0x20
                <= encode_utf8(text)[k] && encode_utf8(text)[k] != 0x7f)) ==> isHeaderValue(text),
{
    if 0 <= i < encode_utf8(text).len() {
        assert(isHeaderValueByte(encode_utf8(text)[i]) ==> encode_utf8(text)[i] >= 0x20
            || encode_utf8(text)[i] == 0x09);
    }
}

} // verus!
