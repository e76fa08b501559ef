//! Carrying out one replay: what is done in which order, and how a failure ends its transaction.

use crate::controlApi::headerFields::{
    countField, fieldTexts, findHeader, firstField, headerFields, isHeaderName, lawFirstValueIsTheFirst,
    listFields, rawViews, readText, readableText, FieldView, HeaderField, RawField,
};
use crate::controlApi::httpControl::{plainError, ApiError};
use crate::controlApi::repeatControl::{maximumReplayBodyBytes, PreparedReplayRequest};
use crate::controlApi::transactions::TransactionProtocol;
use crate::localization::ErrorCode;
use crate::text::{
    asciiLowered, byteLen, byteLength, copyText, equalText, lossyText, textOfBytesLossily,
};
use vstd::prelude::*;

verus! {

// ---------------------------------------------------------------------------
// The steps of a replay
// ---------------------------------------------------------------------------

/// Why a replay failed.
#[derive(Clone, Copy, Debug, PartialEq, Eq, Structural)]
pub enum ReplayError {
    PipelineFailed,
    RecordingFailed,
    ClientFailed,
    RequestFailed,
    ResponseReadFailed,
    ResponseMissing,
    Cancelled,
}

/// The code under which an error is recorded.
pub open spec fn replayErrorCode(error: ReplayError) -> Seq<char> {
    match error {
        ReplayError::PipelineFailed => "repeatPipelineFailed"@,
        ReplayError::RecordingFailed => "repeatRecordingFailed"@,
        ReplayError::ClientFailed => "repeatClientFailed"@,
        ReplayError::RequestFailed => "repeatRequestFailed"@,
        ReplayError::ResponseReadFailed => "repeatResponseReadFailed"@,
        ReplayError::ResponseMissing => "repeatResponseMissing"@,
        ReplayError::Cancelled => "repeatCancelled"@,
    }
}

impl ReplayError {
    /// The code under which the error is recorded.
    pub fn code(&self) -> (result: &'static str)
        ensures
            result@ == replayErrorCode(*self),
    {
        match self {
            ReplayError::PipelineFailed => "repeatPipelineFailed",
            ReplayError::RecordingFailed => "repeatRecordingFailed",
            ReplayError::ClientFailed => "repeatClientFailed",
            ReplayError::RequestFailed => "repeatRequestFailed",
            ReplayError::ResponseReadFailed => "repeatResponseReadFailed",
            ReplayError::ResponseMissing => "repeatResponseMissing",
            ReplayError::Cancelled => "repeatCancelled",
        }
    }
}

/// What the request pipeline decides.
#[derive(Clone, Copy, Debug, PartialEq, Eq, Structural)]
pub enum PipelineRequestOutcome {
    Forward,
    Synthetic,
    Blocked,
}

/// What is done next in a replay.
#[derive(Clone, Copy, Debug, PartialEq, Eq, Structural)]
pub enum ReplayStep {
    /// Run the tools on the request.
    RunRequestPipeline,
    /// Record the request.
    StoreRequest,
    /// Send the request and read the answer.
    Send,
    /// Run the tools on the response.
    RunResponsePipeline,
    /// Record the response.
    StoreResponse,
    /// End the transaction as completed.
    Commit,
    /// End the transaction as blocked.
    Block,
    /// End the transaction as cancelled.
    RecordCancellation,
    /// The replay succeeded.
    Done,
}

/// What a step came to.
#[derive(Clone, Copy, Debug, PartialEq, Eq, Structural)]
pub enum ReplayEvent {
    /// The step succeeded.
    Succeeded,
    /// The request pipeline decided.
    Decided(PipelineRequestOutcome),
    /// The step failed.
    StepFailed,
    /// No client could be made for the request.
    NoClient,
    /// The answer could not be read.
    Unreadable,
    /// The replay was cancelled before an answer came.
    CancelledBeforeAnswer,
    /// The replay was cancelled while the answer was read.
    CancelledWhileReading,
}

/// A replay under way.
#[derive(Clone, Copy, Debug, PartialEq, Eq, Structural)]
pub struct Replay {
    /// Whether the tools take part.
    pub viaProxy: bool,
    /// Whether a transaction records the replay.
    pub captured: bool,
    /// What the request pipeline decided.
    pub outcome: PipelineRequestOutcome,
    /// Whether there is a response.
    pub answered: bool,
    pub step: ReplayStep,
}

/// A replay at its start.
pub open spec fn startedReplay(viaProxy: bool, captured: bool) -> Replay {
    let outcome = PipelineRequestOutcome::Forward;
    Replay {
        viaProxy,
        captured,
        outcome,
        answered: false,
        step: if viaProxy {
            ReplayStep::RunRequestPipeline
        } else {
            afterDecision(captured, outcome)
        },
    }
}

/// What follows the decision of the request pipeline: recording, where there is a transaction.
pub open spec fn afterDecision(captured: bool, outcome: PipelineRequestOutcome) -> ReplayStep {
    if captured {
        ReplayStep::StoreRequest
    } else {
        afterStoring(outcome)
    }
}

/// What follows once the request is recorded.
pub open spec fn afterStoring(outcome: PipelineRequestOutcome) -> ReplayStep {
    if outcome == PipelineRequestOutcome::Forward {
        ReplayStep::Send
    } else {
        ReplayStep::RunResponsePipeline
    }
}

/// What follows once the response stands: it must be there, and is recorded where there is a
/// transaction.
pub open spec fn afterResponse(replay: Replay) -> Result<ReplayStep, ReplayError> {
    if !replay.answered {
        Err(ReplayError::ResponseMissing)
    } else if replay.captured {
        Ok(ReplayStep::StoreResponse)
    } else {
        Ok(ReplayStep::Done)
    }
}

/// The replay with its next step, or the error that ends it.
pub open spec fn toStep(replay: Replay, next: Result<ReplayStep, ReplayError>) -> Result<
    Replay,
    ReplayError,
> {
    match next {
        Ok(step) => Ok(Replay { step, ..replay }),
        Err(error) => Err(error),
    }
}

/// What a step and its outcome lead to. `hasResponse` tells whether a synthetic decision brought its
/// response along.
pub open spec fn nextReplay(replay: Replay, event: ReplayEvent, hasResponse: bool) -> Result<
    Replay,
    ReplayError,
> {
    match (replay.step, event) {
        (ReplayStep::RunRequestPipeline, ReplayEvent::Decided(outcome)) => {
            let decided = Replay { outcome, answered: hasResponse, ..replay };
            Ok(Replay { step: afterDecision(replay.captured, outcome), ..decided })
        },
        (ReplayStep::RunRequestPipeline, _) => Err(ReplayError::PipelineFailed),
        (ReplayStep::StoreRequest, ReplayEvent::Succeeded) => Ok(
            Replay { step: afterStoring(replay.outcome), ..replay },
        ),
        (ReplayStep::StoreRequest, _) => Err(ReplayError::RecordingFailed),
        (ReplayStep::Send, ReplayEvent::Succeeded) => {
            let answered = Replay { answered: true, ..replay };
            if replay.viaProxy {
                Ok(Replay { step: ReplayStep::RunResponsePipeline, ..answered })
            } else {
                toStep(answered, afterResponse(answered))
            }
        },
        (ReplayStep::Send, ReplayEvent::NoClient) => Err(ReplayError::ClientFailed),
        (ReplayStep::Send, ReplayEvent::Unreadable) => Err(ReplayError::ResponseReadFailed),
        (ReplayStep::Send, ReplayEvent::CancelledWhileReading) => Err(ReplayError::Cancelled),
        (ReplayStep::Send, ReplayEvent::CancelledBeforeAnswer) => if replay.captured {
            Ok(Replay { step: ReplayStep::RecordCancellation, ..replay })
        } else {
            Err(ReplayError::Cancelled)
        },
        (ReplayStep::Send, _) => Err(ReplayError::RequestFailed),
        (ReplayStep::RecordCancellation, ReplayEvent::Succeeded) => Err(ReplayError::Cancelled),
        (ReplayStep::RecordCancellation, _) => Err(ReplayError::RecordingFailed),
        (ReplayStep::RunResponsePipeline, ReplayEvent::Succeeded) => toStep(
            replay,
            afterResponse(replay),
        ),
        (ReplayStep::RunResponsePipeline, _) => Err(ReplayError::PipelineFailed),
        (ReplayStep::StoreResponse, ReplayEvent::Succeeded) => Ok(
            Replay {
                step: if replay.outcome == PipelineRequestOutcome::Blocked {
                    ReplayStep::Block
                } else {
                    ReplayStep::Commit
                },
                ..replay
            },
        ),
        (ReplayStep::Commit, ReplayEvent::Succeeded) => Ok(
            Replay { step: ReplayStep::Done, ..replay },
        ),
        (ReplayStep::Block, ReplayEvent::Succeeded) => Ok(
            Replay { step: ReplayStep::Done, ..replay },
        ),
        (ReplayStep::Done, _) => Ok(replay),
        _ => Err(ReplayError::RecordingFailed),
    }
}

fn stepAfterDecision(captured: bool, outcome: PipelineRequestOutcome) -> (result: ReplayStep)
    ensures
        result == afterDecision(captured, outcome),
{
    if captured {
        ReplayStep::StoreRequest
    } else {
        stepAfterStoring(outcome)
    }
}

fn stepAfterStoring(outcome: PipelineRequestOutcome) -> (result: ReplayStep)
    ensures
        result == afterStoring(outcome),
{
    match outcome {
        PipelineRequestOutcome::Forward => ReplayStep::Send,
        _ => ReplayStep::RunResponsePipeline,
    }
}

fn concludeResponse(replay: Replay) -> (result: Result<Replay, ReplayError>)
    ensures
        result == toStep(replay, afterResponse(replay)),
{
    if !replay.answered {
        Err(ReplayError::ResponseMissing)
    } else if replay.captured {
        Ok(Replay { step: ReplayStep::StoreResponse, ..replay })
    } else {
        Ok(Replay { step: ReplayStep::Done, ..replay })
    }
}

impl Replay {
    /// A replay at its start.
    pub fn start(viaProxy: bool, captured: bool) -> (result: Replay)
        ensures
            result == startedReplay(viaProxy, captured),
    {
        let outcome = PipelineRequestOutcome::Forward;
        Replay {
            viaProxy,
            captured,
            outcome,
            answered: false,
            step: if viaProxy {
                ReplayStep::RunRequestPipeline
            } else {
                stepAfterDecision(captured, outcome)
            },
        }
    }

    /// What the current step's outcome leads to.
    pub fn executeReplayInner(self, event: ReplayEvent, hasResponse: bool) -> (result: Result<
        Replay,
        ReplayError,
    >)
        ensures
            result == nextReplay(self, event, hasResponse),
    {
        match (self.step, event) {
            (ReplayStep::RunRequestPipeline, ReplayEvent::Decided(outcome)) => Ok(
                Replay {
                    outcome,
                    answered: hasResponse,
                    step: stepAfterDecision(self.captured, outcome),
                    ..self
                },
            ),
            (ReplayStep::RunRequestPipeline, _) => Err(ReplayError::PipelineFailed),
            (ReplayStep::StoreRequest, ReplayEvent::Succeeded) => Ok(
                Replay { step: stepAfterStoring(self.outcome), ..self },
            ),
            (ReplayStep::StoreRequest, _) => Err(ReplayError::RecordingFailed),
            (ReplayStep::Send, ReplayEvent::Succeeded) => {
                let answered = Replay { answered: true, ..self };
                if self.viaProxy {
                    Ok(Replay { step: ReplayStep::RunResponsePipeline, ..answered })
                } else {
                    concludeResponse(answered)
                }
            },
            (ReplayStep::Send, ReplayEvent::NoClient) => Err(ReplayError::ClientFailed),
            (ReplayStep::Send, ReplayEvent::Unreadable) => Err(ReplayError::ResponseReadFailed),
            (ReplayStep::Send, ReplayEvent::CancelledWhileReading) => Err(ReplayError::Cancelled),
            (ReplayStep::Send, ReplayEvent::CancelledBeforeAnswer) => if self.captured {
                Ok(Replay { step: ReplayStep::RecordCancellation, ..self })
            } else {
                Err(ReplayError::Cancelled)
            },
            (ReplayStep::Send, _) => Err(ReplayError::RequestFailed),
            (ReplayStep::RecordCancellation, ReplayEvent::Succeeded) => Err(ReplayError::Cancelled),
            (ReplayStep::RecordCancellation, _) => Err(ReplayError::RecordingFailed),
            (ReplayStep::RunResponsePipeline, ReplayEvent::Succeeded) => concludeResponse(self),
            (ReplayStep::RunResponsePipeline, _) => Err(ReplayError::PipelineFailed),
            (ReplayStep::StoreResponse, ReplayEvent::Succeeded) => Ok(
                Replay {
                    step: match self.outcome {
                        PipelineRequestOutcome::Blocked => ReplayStep::Block,
                        _ => ReplayStep::Commit,
                    },
                    ..self
                },
            ),
            (ReplayStep::Commit, ReplayEvent::Succeeded) => Ok(
                Replay { step: ReplayStep::Done, ..self },
            ),
            (ReplayStep::Block, ReplayEvent::Succeeded) => Ok(
                Replay { step: ReplayStep::Done, ..self },
            ),
            (ReplayStep::Done, _) => Ok(self),
            _ => Err(ReplayError::RecordingFailed),
        }
    }
}

/// Whether a failed replay marks its transaction as failed: it has one, and its cancellation was not
/// the reason.
pub fn finishReplayFailure(captured: bool, error: ReplayError) -> (result: bool)
    ensures
        result == (captured && error != ReplayError::Cancelled),
{
    match error {
        ReplayError::Cancelled => false,
        _ => captured,
    }
}

/// What holds of a replay at each of its steps.
pub open spec fn isReplaySound(replay: Replay) -> bool {
    &&& (replay.step is StoreRequest || replay.step is StoreResponse || replay.step is Commit
        || replay.step is Block || replay.step is RecordCancellation ==> replay.captured)
    &&& (replay.step is Send ==> replay.outcome == PipelineRequestOutcome::Forward)
    &&& (replay.step is RunRequestPipeline ==> replay.viaProxy)
    &&& (replay.step is RunResponsePipeline ==> replay.viaProxy)
    &&& (replay.step is Block ==> replay.outcome == PipelineRequestOutcome::Blocked)
    &&& (replay.step is Commit ==> replay.outcome != PipelineRequestOutcome::Blocked)
    &&& (replay.step is StoreResponse || replay.step is Commit || replay.step is Block
        || replay.step is Done ==> replay.answered)
    &&& (!replay.viaProxy ==> replay.outcome == PipelineRequestOutcome::Forward)
}

/// A replay without a transaction never touches the recording, one past the tools never runs them,
/// only a blocked request ends as blocked, and a replay is done only with a response.
pub proof fn lawReplayKeepsItsCourse(
    viaProxy: bool,
    captured: bool,
    replay: Replay,
    event: ReplayEvent,
    hasResponse: bool,
)
    ensures
        isReplaySound(startedReplay(viaProxy, captured)),
        isReplaySound(replay) ==> (nextReplay(replay, event, hasResponse) matches Ok(next)
            ==> isReplaySound(next) && next.captured == replay.captured && next.viaProxy
            == replay.viaProxy),
{
}

/// How many steps at most are left.
pub open spec fn stepsLeft(replay: Replay) -> nat {
    match replay.step {
        ReplayStep::RunRequestPipeline => 7,
        ReplayStep::StoreRequest => 6,
        ReplayStep::Send => 5,
        ReplayStep::RecordCancellation => 1,
        ReplayStep::RunResponsePipeline => 4,
        ReplayStep::StoreResponse => 3,
        ReplayStep::Commit => 2,
        ReplayStep::Block => 2,
        ReplayStep::Done => 0,
    }
}

/// Every step brings a replay closer to its end.
pub proof fn lawReplayEnds(replay: Replay, event: ReplayEvent, hasResponse: bool)
    requires
        !(replay.step is Done),
    ensures
        nextReplay(replay, event, hasResponse) matches Ok(next) ==> stepsLeft(next) < stepsLeft(
            replay,
        ),
{
}

// ---------------------------------------------------------------------------
// Bodies and sizes
// ---------------------------------------------------------------------------

/// A body with more bytes behind it, where the whole is no larger than the largest body.
pub open spec fn grownBody(body: Seq<u8>, chunk: Seq<u8>) -> Option<Seq<u8>> {
    if body.len() + chunk.len() <= maximumReplayBodyBytes {
        Some(body + chunk)
    } else {
        None
    }
}

/// Adds the next bytes of an answer. An answer that grows beyond the largest body fails; it is never
/// cut short.
pub fn readResponseBody(body: &mut Vec<u8>, chunk: &Vec<u8>) -> (result: Result<(), ReplayError>)
    ensures
        match grownBody(old(body)@, chunk@) {
            Some(grown) => result is Ok && final(body)@ == grown,
            None => result == Err::<(), ReplayError>(ReplayError::ResponseReadFailed)
                && final(body)@ == old(body)@,
        },
{
    let ghost before = body@;
    if body.len() > maximumReplayBodyBytes || chunk.len() > maximumReplayBodyBytes - body.len() {
        return Err(ReplayError::ResponseReadFailed);
    }
    let mut i: usize = 0;
    while i < chunk.len()
        invariant
            i <= chunk.len(),
            body@ == before + chunk@.take(i as int),
        decreases chunk.len() - i,
    {
        body.push(chunk[i]);
        i += 1;
        assert(body@ == before + chunk@.take(i as int));
    }
    assert(chunk@.take(i as int) == chunk@);
    Ok(())
}

/// How an answer is cut into pieces does not matter: read in two of them it gives the same bytes, or
/// the same failure, as read at once.
pub proof fn lawChunksDoNotMatter(body: Seq<u8>, first: Seq<u8>, second: Seq<u8>)
    ensures
        grownBody(body, first + second) == match grownBody(body, first) {
            Some(grown) => grownBody(grown, second),
            None => None,
        },
{
    assert(body + (first + second) == (body + first) + second);
}

/// The fields of a collection as text.
pub open spec fn readableFields(fields: Seq<FieldView>) -> Seq<(Seq<char>, Seq<char>)> {
    fields.map_values(|field: FieldView| (field.0, lossyText(field.1)))
}

/// The fields of a collection as text; bytes that are no text are replaced.
pub fn recordedFields(headers: &http::HeaderMap<http::HeaderValue>) -> (result: Vec<HeaderField>)
    ensures
        fieldTexts(result@) == readableFields(headerFields(*headers)),
{
    let raw = listFields(headers);
    readFields(raw)
}

/// Fields as text; bytes that are no text are replaced.
pub fn readFields(raw: Vec<RawField>) -> (result: Vec<HeaderField>)
    ensures
        fieldTexts(result@) == readableFields(rawViews(raw@)),
{
    let ghost wanted = readableFields(rawViews(raw@));
    let mut result: Vec<HeaderField> = Vec::new();
    let mut i: usize = 0;
    while i < raw.len()
        invariant
            i <= raw.len(),
            wanted == readableFields(rawViews(raw@)),
            fieldTexts(result@) == wanted.take(i as int),
        decreases raw.len() - i,
    {
        let ghost before = result@;
        let value = textOfBytesLossily(raw[i].value.as_slice());
        let name = crate::text::copyText(raw[i].name.as_str());
        result.push(HeaderField { name, value });
        assert(wanted[i as int] == (raw@[i as int].name@, lossyText(raw@[i as int].value@)));
        assert(fieldTexts(result@) == fieldTexts(before).push(wanted[i as int]));
        i += 1;
        assert(fieldTexts(result@) == wanted.take(i as int));
    }
    assert(wanted.take(i as int) == wanted);
    result
}

/// The text of a header value, where it is there and all of it is visible ASCII; empty otherwise.
pub open spec fn visibleText(value: Option<Seq<u8>>) -> Seq<char> {
    match value {
        Some(bytes) => match readableText(bytes) {
            Some(text) => text,
            None => Seq::empty(),
        },
        None => Seq::empty(),
    }
}

/// The text of a header, where it is there and all of it is visible ASCII; empty otherwise.
pub fn headerText(headers: &http::HeaderMap<http::HeaderValue>, name: &str) -> (result: String)
    requires
        isHeaderName(name@),
    ensures
        result@ == visibleText(firstField(headerFields(*headers), asciiLowered(name@))),
{
    let value = findHeader(headers, name);
    readVisible(value)
}

/// The text of a value, where it is there and all of it is visible ASCII; empty otherwise.
pub fn readVisible(value: Option<Vec<u8>>) -> (result: String)
    ensures
        result@ == visibleText(
            match value {
                Some(bytes) => Some(bytes@),
                None => None,
            },
        ),
{
    match value {
        Some(bytes) => match readText(bytes.as_slice()) {
            Some(text) => text,
            None => String::new(),
        },
        None => String::new(),
    }
}

/// The content type of a message; empty where it has none that can be read.
pub fn contentType(headers: &http::HeaderMap<http::HeaderValue>) -> (result: String)
    ensures
        result@ == visibleText(
            firstField(headerFields(*headers), asciiLowered("content-type"@)),
        ),
{
    proof {
        reveal_strlit("content-type");
    }
    headerText(headers, "content-type")
}

/// The content encoding of a message: `identity` where it names none, empty where the name cannot be
/// read.
pub fn contentEncoding(headers: &http::HeaderMap<http::HeaderValue>) -> (result: String)
    ensures
        result@ == messageEncoding(headerFields(*headers)),
{
    proof {
        reveal_strlit("content-encoding");
    }
    let value = findHeader(headers, "content-encoding");
    if value.is_none() {
        return crate::text::copyText("identity");
    }
    readVisible(value)
}

/// The bytes that fields take in a message: name, value and four more each.
pub open spec fn fieldsSize(fields: Seq<FieldView>) -> nat
    decreases fields.len(),
{
    if fields.len() == 0 {
        0
    } else {
        fieldsSize(fields.drop_last()) + byteLength(fields.last().0) + fields.last().1.len() + 4
    }
}

/// The bytes that fields take in a message; `None` past the largest machine number.
pub fn headerBytes(fields: &Vec<RawField>) -> (result: Option<u64>)
    ensures
        match result {
            Some(size) => size == fieldsSize(rawViews(fields@)),
            None => fieldsSize(rawViews(fields@)) > u64::MAX,
        },
{
    let ghost all = rawViews(fields@);
    let mut total: u64 = 0;
    let mut i: usize = 0;
    assert(all.take(0).len() == 0);
    while i < fields.len()
        invariant
            i <= fields.len(),
            all == rawViews(fields@),
            total == fieldsSize(all.take(i as int)),
        decreases fields.len() - i,
    {
        proof {
            assert(all.take(i + 1).drop_last() == all.take(i as int));
            assert(all.take(i + 1).last() == (fields@[i as int].name@, fields@[i as int].value@));
            lemmaFieldsSizeGrows(all, i + 1);
        }
        let size: u128 = total as u128 + byteLen(fields[i].name.as_str()) as u128
            + fields[i].value.len() as u128 + 4;
        if size > u64::MAX as u128 {
            return None;
        }
        total = size as u64;
        i += 1;
    }
    assert(all.take(i as int) == all);
    Some(total)
}

proof fn lemmaFieldsSizeGrows(fields: Seq<FieldView>, upTo: int)
    requires
        0 <= upTo <= fields.len(),
    ensures
        fieldsSize(fields.take(upTo)) <= fieldsSize(fields),
    decreases fields.len() - upTo,
{
    if upTo == fields.len() {
        assert(fields.take(upTo) == fields);
    } else {
        assert(fields.take(upTo + 1).drop_last() == fields.take(upTo));
        lemmaFieldsSizeGrows(fields, upTo + 1);
    }
}

/// The bytes of a request's first line and fields, where they can be counted.
pub open spec fn requestSize(method: Seq<char>, uri: Seq<char>, fields: nat) -> Option<u64> {
    let size = byteLength(method) + byteLength(uri) + 12 + fields;
    if size > u64::MAX {
        None
    } else {
        Some(size as u64)
    }
}

/// The bytes of a request's first line and fields, where they can be counted.
pub fn requestHeaderBytes(
    method: &str,
    uri: &str,
    headers: &http::HeaderMap<http::HeaderValue>,
) -> (result: Option<u64>)
    ensures
        result == requestSize(method@, uri@, fieldsSize(headerFields(*headers))),
{
    let raw = listFields(headers);
    match headerBytes(&raw) {
        Some(fields) => {
            let size: u128 = byteLen(method) as u128 + byteLen(uri) as u128 + 12 + fields as u128;
            if size > u64::MAX as u128 {
                None
            } else {
                Some(size as u64)
            }
        },
        None => None,
    }
}

/// The standard phrase of a status, if it has one.
pub uninterp spec fn statusPhrase(status: u16) -> Option<Seq<char>>;

/// The standard phrase of a status.
///
/// Trusted: `http::StatusCode::canonical_reason`, a fixed table.
#[verifier::external_body]
pub(crate) fn canonicalReason(status: u16) -> (result: Option<String>)
    ensures
        crate::text::optionalView(result) == statusPhrase(status),
{
    let status = http::StatusCode::from_u16(status).ok()?;
    status.canonical_reason().map(|text| text.to_owned())
}

/// The bytes of a response's first line and fields, where they can be counted.
pub fn responseHeaderBytes(status: u16, headers: &http::HeaderMap<http::HeaderValue>) -> (result:
    Option<u64>)
    ensures
        result == responseSize(statusPhrase(status), fieldsSize(headerFields(*headers))),
{
    let reason = canonicalReason(status);
    let raw = listFields(headers);
    measureResponse(&reason, headerBytes(&raw))
}

/// The bytes of a response's first line and fields, where they can be counted.
pub open spec fn responseSize(phrase: Option<Seq<char>>, fields: nat) -> Option<u64> {
    let size = 15 + fields + match phrase {
        Some(text) => byteLength(text),
        None => 0,
    };
    if size > u64::MAX {
        None
    } else {
        Some(size as u64)
    }
}

/// The bytes of a response's first line, with the phrase of its status, and its fields.
pub fn measureResponse(phrase: &Option<String>, fields: Option<u64>) -> (result: Option<u64>)
    ensures
        match fields {
            Some(size) => result == responseSize(
                crate::text::optionalView(*phrase),
                size as nat,
            ),
            None => result is None,
        },
{
    let length: usize = match phrase {
        Some(text) => byteLen(text.as_str()),
        None => 0,
    };
    match fields {
        Some(fields) => {
            let size: u128 = 15 + length as u128 + fields as u128;
            if size > u64::MAX as u128 {
                None
            } else {
                Some(size as u64)
            }
        },
        None => None,
    }
}

// ---------------------------------------------------------------------------
// What is recorded of a replay
// ---------------------------------------------------------------------------

/// The client that replays are recorded under.
pub const replayClientAddress: &'static str = "127.0.0.1:0";

/// What a transaction of a replay begins with.
#[derive(Debug)]
pub struct ReplayBeginning {
    pub protocol: TransactionProtocol,
    pub method: String,
    pub clientAddress: String,
    pub contentType: String,
}

/// What the transaction of a prepared request begins with.
pub fn beginReplayCapture(request: &PreparedReplayRequest) -> (result: ReplayBeginning)
    ensures
        result.protocol == if request.originalLocation@.protocol == "https"@ {
            TransactionProtocol::Https
        } else {
            TransactionProtocol::Http
        },
        result.method@ == request.method@,
        result.clientAddress@ == replayClientAddress@,
        result.contentType@ == messageType(headerFields(request.headers)),
{
    ReplayBeginning {
        protocol: if equalText(request.originalLocation.protocol.as_str(), "https") {
            TransactionProtocol::Https
        } else {
            TransactionProtocol::Http
        },
        method: copyText(request.method.as_str()),
        clientAddress: copyText(replayClientAddress),
        contentType: contentType(&request.headers),
    }
}

/// What beginning a transaction came to.
#[derive(Debug)]
pub enum CaptureBeginning {
    /// The recording failed.
    Failed,
    /// The recording takes no transaction now.
    Unavailable,
    /// The identifier of the transaction.
    Begun(String),
}

/// The transaction of a replay, or why there is none.
pub fn settleReplayCapture(beginning: CaptureBeginning) -> (result: Result<String, ApiError>)
    ensures
        match beginning {
            CaptureBeginning::Failed => result matches Err(error) && error@ == plainError(
                500,
                ErrorCode::RecordingOperationFailed,
            ),
            CaptureBeginning::Unavailable => result matches Err(error) && error@ == plainError(
                409,
                ErrorCode::RepeatRecordingUnavailable,
            ),
            CaptureBeginning::Begun(transactionId) => result == Ok::<String, ApiError>(
                transactionId,
            ),
        },
{
    match beginning {
        CaptureBeginning::Failed => Err(ApiError::internal(ErrorCode::RecordingOperationFailed)),
        CaptureBeginning::Unavailable => Err(
            ApiError::conflict(ErrorCode::RepeatRecordingUnavailable),
        ),
        CaptureBeginning::Begun(transactionId) => Ok(transactionId),
    }
}

/// A body as it is recorded.
#[derive(Debug)]
pub struct BodyWrite {
    pub bytes: Vec<u8>,
    pub originalBytes: u64,
    pub contentType: String,
    pub encoding: String,
}

/// A whole body as it is recorded.
pub fn bodyWrite(bytes: Vec<u8>, contentType: String, encoding: String) -> (result: BodyWrite)
    ensures
        result.bytes == bytes,
        result.originalBytes == bytes@.len(),
        result.contentType == contentType,
        result.encoding == encoding,
{
    let originalBytes: u64 = bytes.len() as u64;
    BodyWrite { bytes, originalBytes, contentType, encoding }
}

/// One side of a replay as it is recorded. A head that is too large to be counted has no size.
#[derive(Debug)]
pub struct RecordedMessage {
    pub fields: Vec<HeaderField>,
    pub headerBytes: Option<u64>,
    pub body: BodyWrite,
}

/// The content type of fields; empty where there is none that can be read.
pub open spec fn messageType(fields: Seq<FieldView>) -> Seq<char> {
    visibleText(firstField(fields, asciiLowered("content-type"@)))
}

/// The content encoding of fields: `identity` where they name none, empty where the name cannot be
/// read.
pub open spec fn messageEncoding(fields: Seq<FieldView>) -> Seq<char> {
    match firstField(fields, asciiLowered("content-encoding"@)) {
        Some(bytes) => visibleText(Some(bytes)),
        None => "identity"@,
    }
}

/// Whether a record holds the fields and the body of a message; a missing body is an empty one.
pub open spec fn records(
    message: RecordedMessage,
    fields: Seq<FieldView>,
    body: Option<Vec<u8>>,
) -> bool {
    let bytes = match body {
        Some(given) => given@,
        None => Seq::empty(),
    };
    &&& fieldTexts(message.fields@) == readableFields(fields)
    &&& message.body.bytes@ == bytes
    &&& message.body.originalBytes == bytes.len()
    &&& message.body.contentType@ == messageType(fields)
    &&& message.body.encoding@ == messageEncoding(fields)
}

fn recordMessage(
    headerBytes: Option<u64>,
    headers: &http::HeaderMap<http::HeaderValue>,
    body: Option<Vec<u8>>,
) -> (result: RecordedMessage)
    ensures
        result.headerBytes == headerBytes,
        records(result, headerFields(*headers), body),
{
    let bytes = match body {
        Some(given) => given,
        None => Vec::new(),
    };
    RecordedMessage {
        fields: recordedFields(headers),
        headerBytes,
        body: bodyWrite(bytes, contentType(headers), contentEncoding(headers)),
    }
}

/// What is recorded of the request, as the tools left it.
pub fn storeReplayRequest(
    method: &str,
    uri: &str,
    headers: &http::HeaderMap<http::HeaderValue>,
    body: Option<Vec<u8>>,
) -> (result: RecordedMessage)
    ensures
        result.headerBytes == requestSize(method@, uri@, fieldsSize(headerFields(*headers))),
        records(result, headerFields(*headers), body),
{
    recordMessage(requestHeaderBytes(method, uri, headers), headers, body)
}

/// What is recorded of the response, as the tools left it.
pub fn completeReplayResponse(
    status: u16,
    headers: &http::HeaderMap<http::HeaderValue>,
    body: Option<Vec<u8>>,
) -> (result: RecordedMessage)
    ensures
        result.headerBytes == responseSize(
            statusPhrase(status),
            fieldsSize(headerFields(*headers)),
        ),
        records(result, headerFields(*headers), body),
{
    recordMessage(responseHeaderBytes(status, headers), headers, body)
}

/// A replay begins with the tools where it goes through the proxy, else with its recording where it is
/// recorded, else with sending.
pub proof fn lawReplayBegins(viaProxy: bool, captured: bool)
    ensures
        startedReplay(viaProxy, captured).step is RunRequestPipeline <==> viaProxy,
        startedReplay(viaProxy, captured).step is StoreRequest <==> !viaProxy && captured,
        startedReplay(viaProxy, captured).step is Send <==> !viaProxy && !captured,
        startedReplay(viaProxy, captured).viaProxy == viaProxy,
        startedReplay(viaProxy, captured).captured == captured,
        !startedReplay(viaProxy, captured).answered,
{
}

/// What the tools decide is carried out: a request that they let pass is sent, one that they answered or
/// blocked is not, and either is recorded first where the replay is.
pub proof fn lawToolsDecideTheRequest(
    replay: Replay,
    outcome: PipelineRequestOutcome,
    hasResponse: bool,
)
    requires
        replay.step is RunRequestPipeline,
    ensures
        nextReplay(replay, ReplayEvent::Decided(outcome), hasResponse) matches Ok(decided) && {
            &&& decided.outcome == outcome
            &&& decided.answered == hasResponse
            &&& decided.step is StoreRequest <==> replay.captured
            &&& decided.step is Send <==> !replay.captured && outcome
                == PipelineRequestOutcome::Forward
            &&& decided.step is RunResponsePipeline <==> !replay.captured && outcome
                != PipelineRequestOutcome::Forward
            &&& replay.captured ==> (nextReplay(decided, ReplayEvent::Succeeded, false) matches Ok(
                stored,
            ) && (stored.step is Send <==> outcome == PipelineRequestOutcome::Forward) && (
            stored.step is RunResponsePipeline <==> outcome != PipelineRequestOutcome::Forward))
        },
{
}

/// An answer that came is led through the tools where the proxy takes part, recorded where the replay is, and
/// the recording ends as blocked exactly where the tools blocked the request.
pub proof fn lawAnswerIsCarriedThrough(replay: Replay)
    requires
        isReplaySound(replay),
        replay.step is Send,
    ensures
        nextReplay(replay, ReplayEvent::Succeeded, false) matches Ok(answered) && {
            &&& answered.answered
            &&& answered.step is RunResponsePipeline <==> replay.viaProxy
            &&& answered.step is StoreResponse <==> !replay.viaProxy && replay.captured
            &&& answered.step is Done <==> !replay.viaProxy && !replay.captured
        },
{
}

/// A response that the tools let pass is recorded and committed, or is the end where nothing is recorded; one
/// that never came is told as missing.
pub proof fn lawResponseIsRecordedAndEnds(replay: Replay)
    ensures
        replay.step is RunResponsePipeline && replay.answered ==> (nextReplay(
            replay,
            ReplayEvent::Succeeded,
            false,
        ) matches Ok(next) && (next.step is StoreResponse <==> replay.captured) && (next.step is Done
            <==> !replay.captured)),
        replay.step is RunResponsePipeline && !replay.answered ==> nextReplay(
            replay,
            ReplayEvent::Succeeded,
            false,
        ) == Err::<Replay, ReplayError>(ReplayError::ResponseMissing),
        replay.step is StoreResponse ==> (nextReplay(replay, ReplayEvent::Succeeded, false)
            matches Ok(next) && (next.step is Block <==> replay.outcome
            == PipelineRequestOutcome::Blocked) && (next.step is Commit <==> replay.outcome
            != PipelineRequestOutcome::Blocked)),
        replay.step is Commit || replay.step is Block ==> (nextReplay(
            replay,
            ReplayEvent::Succeeded,
            false,
        ) matches Ok(next) && next.step is Done),
{
}

/// Each failure is told for what it is: of the tools, of the recording, of the client, of the request, of
/// reading the answer, or as a cancellation, which is recorded first where the replay is.
pub proof fn lawReplayTellsItsFailure(replay: Replay, hasResponse: bool)
    ensures
        ({
            let failed = |event: ReplayEvent, error: ReplayError|
                nextReplay(replay, event, hasResponse) == Err::<Replay, ReplayError>(error);
            &&& replay.step is RunRequestPipeline || replay.step is RunResponsePipeline ==> failed(
                ReplayEvent::StepFailed,
                ReplayError::PipelineFailed,
            )
            &&& replay.step is StoreRequest || replay.step is StoreResponse || replay.step is Commit
                || replay.step is Block || replay.step is RecordCancellation ==> failed(
                ReplayEvent::StepFailed,
                ReplayError::RecordingFailed,
            )
            &&& replay.step is Send ==> {
                &&& failed(ReplayEvent::StepFailed, ReplayError::RequestFailed)
                &&& failed(ReplayEvent::NoClient, ReplayError::ClientFailed)
                &&& failed(ReplayEvent::Unreadable, ReplayError::ResponseReadFailed)
                &&& failed(ReplayEvent::CancelledWhileReading, ReplayError::Cancelled)
                &&& !replay.captured ==> failed(
                    ReplayEvent::CancelledBeforeAnswer,
                    ReplayError::Cancelled,
                )
                &&& replay.captured ==> (nextReplay(
                    replay,
                    ReplayEvent::CancelledBeforeAnswer,
                    hasResponse,
                ) matches Ok(next) && next.step is RecordCancellation)
            }
            &&& replay.step is RecordCancellation ==> failed(
                ReplayEvent::Succeeded,
                ReplayError::Cancelled,
            )
        }),
{
}

/// An answer is read whole up to the largest size, and not at all beyond it.
pub proof fn lawAnswerIsReadWhole(body: Seq<u8>, chunk: Seq<u8>)
    ensures
        body.len() + chunk.len() <= 8 * 1024 * 1024 ==> grownBody(body, chunk) == Some(body + chunk),
        body.len() + chunk.len() > 8 * 1024 * 1024 ==> grownBody(body, chunk) is None,
{
}

/// The size of a head counts every field with its name, its value, the colon, the blank and the line end, and
/// the order of the fields does not matter.
pub proof fn lawHeadSizeCountsFields(first: Seq<FieldView>, second: Seq<FieldView>, field: FieldView)
    ensures
        fieldsSize(Seq::empty()) == 0,
        fieldsSize(seq![field]) == byteLength(field.0) + ": "@.len() + field.1.len() + "\r\n"@.len(),
        fieldsSize(first + second) == fieldsSize(first) + fieldsSize(second),
    decreases second.len(),
{
    reveal_strlit(": ");
    reveal_strlit("\r\n");
    assert(seq![field].drop_last() == Seq::<FieldView>::empty());
    assert(fieldsSize(seq![field].drop_last()) == 0);
    if second.len() == 0 {
        assert(first + second == first);
    } else {
        lawHeadSizeCountsFields(first, second.drop_last(), field);
        assert((first + second).drop_last() == first + second.drop_last());
    }
}

/// The head of a request is its first line and its fields; that of an answer likewise, with the reason of its
/// status.
pub proof fn lawHeadSizeCountsItsLines(
    method: Seq<char>,
    uri: Seq<char>,
    phrase: Seq<char>,
    fields: nat,
)
    requires
        byteLength(method) + byteLength(uri) + byteLength(phrase) + fields < u64::MAX - 100,
    ensures
        requestSize(method, uri, fields) == Some(
            (byteLength(method) + " "@.len() + byteLength(uri) + " HTTP/1.1"@.len() + "\r\n"@.len()
                + fields) as u64,
        ),
        responseSize(Some(phrase), fields) == Some(
            ("HTTP/1.1 "@.len() + "200"@.len() + " "@.len() + byteLength(phrase) + "\r\n"@.len()
                + fields) as u64,
        ),
        responseSize(None, fields) == Some(
            ("HTTP/1.1 "@.len() + "200"@.len() + " "@.len() + "\r\n"@.len() + fields) as u64,
        ),
{
    reveal_strlit(" ");
    reveal_strlit(" HTTP/1.1");
    reveal_strlit("\r\n");
    reveal_strlit("HTTP/1.1 ");
    reveal_strlit("200");
}

/// A message without a coding of its own is stored as it is, and one without a type has none.
pub proof fn lawMessageNamesItsForm(fields: Seq<FieldView>, value: Seq<u8>)
    ensures
        countField(fields, "content-encoding"@) == 0 ==> messageEncoding(fields) == "identity"@,
        countField(fields, "content-type"@) == 0 ==> messageType(fields).len() == 0,
        firstField(fields, "content-type"@) == Some(value) && readableText(value) is Some
            ==> messageType(fields) == readableText(value)->0,
        firstField(fields, "content-encoding"@) == Some(value) && readableText(value) is Some
            ==> messageEncoding(fields) == readableText(value)->0,
{
    reveal_strlit("content-type");
    reveal_strlit("content-encoding");
    assert(asciiLowered("content-type"@) =~= "content-type"@);
    assert(asciiLowered("content-encoding"@) =~= "content-encoding"@);
    lawFirstValueIsTheFirst(fields, "content-type"@);
    lawFirstValueIsTheFirst(fields, "content-encoding"@);
}

/// The codes that failures are told by differ.
pub proof fn lawReplayCodesDiffer(first: ReplayError, second: ReplayError)
    ensures
        first != second ==> replayErrorCode(first) != replayErrorCode(second),
{
    reveal_strlit("repeatPipelineFailed");
    reveal_strlit("repeatRecordingFailed");
    reveal_strlit("repeatClientFailed");
    reveal_strlit("repeatRequestFailed");
    reveal_strlit("repeatResponseReadFailed");
    reveal_strlit("repeatResponseMissing");
    reveal_strlit("repeatCancelled");
    assert("repeatPipelineFailed"@[6] == 'P');
    assert("repeatRecordingFailed"@[6] == 'R' && "repeatRecordingFailed"@.len() == 21);
    assert("repeatClientFailed"@[6] == 'C' && "repeatClientFailed"@.len() == 18);
    assert("repeatRequestFailed"@[6] == 'R' && "repeatRequestFailed"@.len() == 19);
    assert("repeatResponseReadFailed"@.len() == 24);
    assert("repeatResponseMissing"@[8] == 's' && "repeatRecordingFailed"@[8] == 'c');
    assert("repeatResponseMissing"@.len() == 21 && "repeatCancelled"@.len() == 15);
}

} // verus!
