//! Readable forms of recorded bodies: content codings undone and a known application protocol
//! uncovered. The recorded bytes themselves stay as they are.

pub mod contentCoding;
pub mod framedJson;

use crate::controlApi::applicationBodyDecoder::contentCoding::{
    declaredCodings, parseContentCodings, undoCodings, undoneCodings,
};
use crate::controlApi::applicationBodyDecoder::framedJson::{
    decodeKnownApplicationProtocol, hiddenJson, MessageSide,
};
use crate::text::{copyText, joinTexts, joined, views};
use vstd::prelude::*;

verus! {

/// A readable form of a body.
#[derive(Debug)]
pub struct DecodedApplicationBody {
    pub algorithm: String,
    pub contentType: String,
    pub bytes: Vec<u8>,
}

/// The mathematical value of a readable form.
pub struct DecodedBodyView {
    pub algorithm: Seq<char>,
    pub contentType: Seq<char>,
    pub bytes: Seq<u8>,
}

impl View for DecodedApplicationBody {
    type V = DecodedBodyView;

    open spec fn view(&self) -> DecodedBodyView {
        DecodedBodyView {
            algorithm: self.algorithm@,
            contentType: self.contentType@,
            bytes: self.bytes@,
        }
    }
}

/// The readable form of a body once its codings were undone: the JSON that it hides, or the undone
/// bytes. A body without codings that hides nothing has no other form than its own.
pub open spec fn readableForm(
    codings: Seq<Seq<char>>,
    contentType: Seq<char>,
    undone: Seq<u8>,
    hidden: Option<Seq<u8>>,
) -> Option<DecodedBodyView> {
    match hidden {
        Some(json) => Some(
            DecodedBodyView {
                algorithm: joined(codings.push("aes128EcbPkcs7Json"@), " + "@),
                contentType: "application/json;charset=UTF-8"@,
                bytes: json,
            },
        ),
        None => if codings.len() > 0 {
            Some(
                DecodedBodyView { algorithm: joined(codings, " + "@), contentType, bytes: undone },
            )
        } else {
            None
        },
    }
}

/// The readable form of a body. An unknown coding or a broken body has none.
pub open spec fn decodedForm(
    side: MessageSide,
    contentType: Seq<char>,
    contentEncoding: Seq<char>,
    bytes: Seq<u8>,
) -> Option<DecodedBodyView> {
    match declaredCodings(contentEncoding) {
        None => None,
        Some(codings) => match undoneCodings(codings, bytes) {
            None => None,
            Some(undone) => readableForm(
                codings,
                contentType,
                undone,
                hiddenJson(side, contentType, undone),
            ),
        },
    }
}

/// The value of an optional readable form.
pub open spec fn optionalBody(body: Option<DecodedApplicationBody>) -> Option<DecodedBodyView> {
    match body {
        Some(body) => Some(body@),
        None => None,
    }
}

/// Names the readable form of a body whose codings were undone.
pub fn describeBody(
    codings: Vec<String>,
    contentType: &str,
    undone: Vec<u8>,
    hidden: Option<Vec<u8>>,
) -> (result: Option<DecodedApplicationBody>)
    ensures
        optionalBody(result) == readableForm(
            views(codings@),
            contentType@,
            undone@,
            contentCoding::bytesView(hidden),
        ),
{
    match hidden {
        Some(bytes) => {
            let ghost before = views(codings@);
            let mut algorithms = codings;
            algorithms.push(copyText("aes128EcbPkcs7Json"));
            assert(views(algorithms@) == before.push("aes128EcbPkcs7Json"@));
            Some(
                DecodedApplicationBody {
                    algorithm: joinTexts(&algorithms, " + "),
                    contentType: copyText("application/json;charset=UTF-8"),
                    bytes,
                },
            )
        },
        None => if codings.len() > 0 {
            Some(
                DecodedApplicationBody {
                    algorithm: joinTexts(&codings, " + "),
                    contentType: copyText(contentType),
                    bytes: undone,
                },
            )
        } else {
            None
        },
    }
}

/// The readable form of a body.
pub fn decodeApplicationBody(
    side: MessageSide,
    contentType: &str,
    contentEncoding: &str,
    bytes: &Vec<u8>,
) -> (result: Option<DecodedApplicationBody>)
    ensures
        optionalBody(result) == decodedForm(side, contentType@, contentEncoding@, bytes@),
{
    let codings = match parseContentCodings(contentEncoding) {
        Some(codings) => codings,
        None => return None,
    };
    let undone = match undoCodings(&codings, bytes) {
        Some(undone) => undone,
        None => return None,
    };
    let hidden = decodeKnownApplicationProtocol(side, contentType, &undone);
    describeBody(codings, contentType, undone, hidden)
}

/// A body that declares no coding has a derived form exactly where it hides JSON, and that form is
/// declared as JSON.
pub proof fn lawPlainBodyIsNotRewritten(
    side: MessageSide,
    contentType: Seq<char>,
    contentEncoding: Seq<char>,
    bytes: Seq<u8>,
)
    requires
        declaredCodings(contentEncoding) == Some(Seq::<Seq<char>>::empty()),
    ensures
        decodedForm(side, contentType, contentEncoding, bytes) is Some == hiddenJson(
            side,
            contentType,
            bytes,
        ) is Some,
        decodedForm(side, contentType, contentEncoding, bytes) matches Some(form)
            ==> form.contentType == "application/json;charset=UTF-8"@,
{
}

/// A body is shown in readable form exactly where something was undone: a hidden JSON text as such, else what
/// the codings held under its own type. Each step that was undone is named, in the order in which it was put
/// on.
pub proof fn lawReadableFormNamesItsSteps(
    side: MessageSide,
    contentType: Seq<char>,
    contentEncoding: Seq<char>,
    bytes: Seq<u8>,
    codings: Seq<Seq<char>>,
    undone: Seq<u8>,
)
    requires
        declaredCodings(contentEncoding) == Some(codings),
        undoneCodings(codings, bytes) == Some(undone),
    ensures
        ({
            let form = decodedForm(side, contentType, contentEncoding, bytes);
            &&& hiddenJson(side, contentType, undone) matches Some(json) ==> (form matches Some(shown)
                && shown.bytes == json && shown.algorithm == joined(
                codings.push("aes128EcbPkcs7Json"@),
                " + "@,
            ) && shown.contentType == "application/json;charset=UTF-8"@)
            &&& hiddenJson(side, contentType, undone) is None && codings.len() > 0 ==> (form
                matches Some(shown) && shown.bytes == undone && shown.contentType == contentType
                && shown.algorithm == joined(codings, " + "@))
            &&& hiddenJson(side, contentType, undone) is None && codings.len() == 0 ==> form is None
        }),
{
}

/// A body whose codings are not known, or that cannot be undone, has no readable form.
pub proof fn lawUnreadableCodingHasNoForm(
    side: MessageSide,
    contentType: Seq<char>,
    contentEncoding: Seq<char>,
    bytes: Seq<u8>,
)
    ensures
        declaredCodings(contentEncoding) is None ==> decodedForm(
            side,
            contentType,
            contentEncoding,
            bytes,
        ) is None,
        declaredCodings(contentEncoding) matches Some(codings) ==> (undoneCodings(codings, bytes)
            is None ==> decodedForm(side, contentType, contentEncoding, bytes) is None),
{
}

} // verus!
