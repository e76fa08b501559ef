//! Recorded traffic: changing and clearing the recording, and handing out recorded bodies.

use crate::controlApi::applicationBodyDecoder::framedJson::MessageSide;
use crate::controlApi::applicationBodyDecoder::{
    decodeApplicationBody, decodedForm, optionalBody, DecodedApplicationBody, DecodedBodyView,
};
use crate::controlApi::httpControl::{
    captureOperationError, detailedError, mapCaptureOperationError, plainError, ApiError,
    ApiErrorView, CaptureError,
};
use crate::encoding::{base64Text, encodeBase64};
use crate::localization::ErrorCode;
use vstd::prelude::*;

verus! {

/// The value of an optional error.
pub open spec fn failureView(failure: Option<ApiError>) -> Option<ApiErrorView> {
    match failure {
        Some(error) => Some(error@),
        None => None,
    }
}

/// The value of an optional recording failure: the answer to it.
pub open spec fn captureFailureView(failure: Option<CaptureError>) -> Option<ApiErrorView> {
    match failure {
        Some(error) => Some(captureOperationError(error.kind, error.detail@)),
        None => None,
    }
}

fn answerCaptureFailure(failure: Option<CaptureError>) -> (result: Option<ApiError>)
    ensures
        failureView(result) == captureFailureView(failure),
{
    match failure {
        Some(error) => Some(mapCaptureOperationError(error)),
        None => None,
    }
}

// ---------------------------------------------------------------------------
// Changing the recording
// ---------------------------------------------------------------------------

/// The steps of a change.
#[derive(Clone, Copy, Debug, PartialEq, Eq, Structural)]
pub enum RecordingUpdateStep {
    /// Read the recording as it is.
    Read,
    /// Check the change.
    Validate,
    /// Store the changed preferences.
    Persist,
    /// Change the recording.
    Apply,
    /// Publish the recording.
    Publish,
    /// Answer with the recording as it is now.
    Respond,
    /// Answer with what failed.
    Failed,
}

/// A change under way.
#[derive(Debug)]
pub struct RecordingUpdate {
    pub step: RecordingUpdateStep,
    pub failure: Option<ApiError>,
}

/// The mathematical value of a change.
pub struct RecordingUpdateView {
    pub step: RecordingUpdateStep,
    pub failure: Option<ApiErrorView>,
}

impl View for RecordingUpdate {
    type V = RecordingUpdateView;

    open spec fn view(&self) -> RecordingUpdateView {
        RecordingUpdateView { step: self.step, failure: failureView(self.failure) }
    }
}

/// A change at its start.
pub open spec fn startedUpdate() -> RecordingUpdateView {
    RecordingUpdateView { step: RecordingUpdateStep::Read, failure: None }
}

/// The step behind a step that succeeded.
pub open spec fn stepAfterSuccess(step: RecordingUpdateStep) -> RecordingUpdateStep {
    match step {
        RecordingUpdateStep::Read => RecordingUpdateStep::Validate,
        RecordingUpdateStep::Validate => RecordingUpdateStep::Persist,
        RecordingUpdateStep::Persist => RecordingUpdateStep::Apply,
        RecordingUpdateStep::Apply => RecordingUpdateStep::Publish,
        RecordingUpdateStep::Publish => RecordingUpdateStep::Respond,
        RecordingUpdateStep::Respond => RecordingUpdateStep::Respond,
        RecordingUpdateStep::Failed => RecordingUpdateStep::Failed,
    }
}

/// What a step leads to: the first failure ends the change. Preferences that could not be stored are
/// answered as such, whatever the reason was.
pub open spec fn nextRecordingUpdate(
    update: RecordingUpdateView,
    failure: Option<ApiErrorView>,
) -> RecordingUpdateView {
    match update.step {
        RecordingUpdateStep::Respond | RecordingUpdateStep::Failed => update,
        _ => match failure {
            None => RecordingUpdateView { step: stepAfterSuccess(update.step), ..update },
            Some(error) => RecordingUpdateView {
                step: RecordingUpdateStep::Failed,
                failure: Some(
                    if update.step == RecordingUpdateStep::Persist {
                        plainError(500, ErrorCode::ConfigurationPersistenceFailed)
                    } else {
                        error
                    },
                ),
            },
        },
    }
}

impl RecordingUpdate {
    /// A change at its start.
    pub fn start() -> (result: RecordingUpdate)
        ensures
            result@ == startedUpdate(),
    {
        RecordingUpdate { step: RecordingUpdateStep::Read, failure: None }
    }

    /// Takes how the current step went.
    pub fn updateRecording(&mut self, failure: Option<ApiError>)
        ensures
            final(self)@ == nextRecordingUpdate(old(self)@, failureView(failure)),
    {
        let next = match self.step {
            RecordingUpdateStep::Read => RecordingUpdateStep::Validate,
            RecordingUpdateStep::Validate => RecordingUpdateStep::Persist,
            RecordingUpdateStep::Persist => RecordingUpdateStep::Apply,
            RecordingUpdateStep::Apply => RecordingUpdateStep::Publish,
            RecordingUpdateStep::Publish => RecordingUpdateStep::Respond,
            RecordingUpdateStep::Respond => return,
            RecordingUpdateStep::Failed => return,
        };
        match failure {
            None => {
                self.step = next;
            },
            Some(error) => {
                self.failure = if self.step == RecordingUpdateStep::Persist {
                    Some(ApiError::internal(ErrorCode::ConfigurationPersistenceFailed))
                } else {
                    Some(error)
                };
                self.step = RecordingUpdateStep::Failed;
            },
        }
    }

    /// Takes how a step of the recording itself went.
    pub fn settleCapture(&mut self, failure: Option<CaptureError>)
        ensures
            final(self)@ == nextRecordingUpdate(old(self)@, captureFailureView(failure)),
    {
        let failure = answerCaptureFailure(failure);
        self.updateRecording(failure);
    }
}

/// A recording changes only once its changed preferences are stored, and a change that fails says why.
pub proof fn lawRecordingIsStoredFirst(update: RecordingUpdateView, failure: Option<ApiErrorView>)
    ensures
        nextRecordingUpdate(update, failure).step is Apply && !(update.step is Apply)
            ==> update.step is Persist && failure is None,
        nextRecordingUpdate(update, failure).step is Failed && !(update.step is Failed)
            ==> nextRecordingUpdate(update, failure).failure is Some,
        nextRecordingUpdate(update, failure).step is Persist && !(update.step is Persist)
            ==> update.step is Validate && failure is None,
{
}

// ---------------------------------------------------------------------------
// Clearing the recording
// ---------------------------------------------------------------------------

/// Whose generation is advanced, so that nothing recorded before comes back.
#[derive(Clone, Copy, Debug, PartialEq, Eq, Structural)]
pub enum GenerationTarget {
    /// The running data plane.
    DataPlane,
    /// The generation that a stopping data plane left behind.
    LeftBehind,
    /// There is none.
    Absent,
}

/// Whose generation is advanced.
pub fn generationTarget(running: bool, leftBehind: bool) -> (result: GenerationTarget)
    ensures
        result == if running {
            GenerationTarget::DataPlane
        } else if leftBehind {
            GenerationTarget::LeftBehind
        } else {
            GenerationTarget::Absent
        },
{
    if running {
        GenerationTarget::DataPlane
    } else if leftBehind {
        GenerationTarget::LeftBehind
    } else {
        GenerationTarget::Absent
    }
}

/// The steps of clearing.
#[derive(Clone, Copy, Debug, PartialEq, Eq, Structural)]
pub enum RecordingClearStep {
    /// Store that packets so far are not to be recorded.
    AdvanceWatermark,
    /// Empty the recording.
    Clear,
    /// Advance the generation of the data plane.
    AdvanceGeneration,
    /// Publish the recording.
    Publish,
    /// Answer with the recording as it is now.
    Respond,
    /// Answer with what failed.
    Failed,
}

/// Clearing under way. `clearFailure` is kept until the empty recording is published.
#[derive(Debug)]
pub struct RecordingClear {
    pub step: RecordingClearStep,
    pub clearFailure: Option<ApiError>,
    pub failure: Option<ApiError>,
}

/// The mathematical value of clearing.
pub struct RecordingClearView {
    pub step: RecordingClearStep,
    pub clearFailure: Option<ApiErrorView>,
    pub failure: Option<ApiErrorView>,
}

impl View for RecordingClear {
    type V = RecordingClearView;

    open spec fn view(&self) -> RecordingClearView {
        RecordingClearView {
            step: self.step,
            clearFailure: failureView(self.clearFailure),
            failure: failureView(self.failure),
        }
    }
}

/// Clearing at its start.
pub open spec fn startedClear() -> RecordingClearView {
    RecordingClearView {
        step: RecordingClearStep::AdvanceWatermark,
        clearFailure: None,
        failure: None,
    }
}

/// How a step of clearing went.
#[derive(Debug)]
pub enum ClearOutcome {
    Succeeded,
    /// Storing failed.
    Storage(String),
    /// The recording failed.
    Capture(CaptureError),
    /// Publishing failed.
    Publication(ApiError),
}

/// What a step leads to. A recording whose files could not all be removed is empty already: the
/// generation is advanced and the recording published before the failure is told.
pub open spec fn nextClear(clear: RecordingClearView, outcome: ClearOutcome) -> RecordingClearView {
    match (clear.step, outcome) {
        (RecordingClearStep::AdvanceWatermark, ClearOutcome::Succeeded) => RecordingClearView {
            step: RecordingClearStep::Clear,
            ..clear
        },
        (RecordingClearStep::AdvanceWatermark, ClearOutcome::Storage(detail)) => RecordingClearView {
            step: RecordingClearStep::Failed,
            failure: Some(detailedError(500, ErrorCode::RecordingOperationFailed, detail@)),
            ..clear
        },
        (RecordingClearStep::Clear, ClearOutcome::Succeeded) => RecordingClearView {
            step: RecordingClearStep::AdvanceGeneration,
            ..clear
        },
        (RecordingClearStep::Clear, ClearOutcome::Capture(error)) => RecordingClearView {
            step: RecordingClearStep::AdvanceGeneration,
            clearFailure: Some(captureOperationError(error.kind, error.detail@)),
            ..clear
        },
        (RecordingClearStep::AdvanceGeneration, ClearOutcome::Succeeded) => RecordingClearView {
            step: RecordingClearStep::Publish,
            ..clear
        },
        (RecordingClearStep::Publish, ClearOutcome::Publication(error)) => RecordingClearView {
            step: RecordingClearStep::Failed,
            failure: Some(error@),
            ..clear
        },
        (RecordingClearStep::Publish, ClearOutcome::Succeeded) => match clear.clearFailure {
            Some(error) => RecordingClearView {
                step: RecordingClearStep::Failed,
                clearFailure: None,
                failure: Some(error),
            },
            None => RecordingClearView { step: RecordingClearStep::Respond, ..clear },
        },
        _ => clear,
    }
}

impl RecordingClear {
    /// Clearing at its start.
    pub fn start() -> (result: RecordingClear)
        ensures
            result@ == startedClear(),
    {
        RecordingClear {
            step: RecordingClearStep::AdvanceWatermark,
            clearFailure: None,
            failure: None,
        }
    }

    /// Takes how the current step went.
    pub fn clearRecording(&mut self, outcome: ClearOutcome)
        ensures
            final(self)@ == nextClear(old(self)@, outcome),
    {
        match (self.step, outcome) {
            (RecordingClearStep::AdvanceWatermark, ClearOutcome::Succeeded) => {
                self.step = RecordingClearStep::Clear;
            },
            (RecordingClearStep::AdvanceWatermark, ClearOutcome::Storage(detail)) => {
                self.failure = Some(
                    ApiError::internal(ErrorCode::RecordingOperationFailed).withDetail(detail),
                );
                self.step = RecordingClearStep::Failed;
            },
            (RecordingClearStep::Clear, ClearOutcome::Succeeded) => {
                self.step = RecordingClearStep::AdvanceGeneration;
            },
            (RecordingClearStep::Clear, ClearOutcome::Capture(error)) => {
                self.clearFailure = Some(mapCaptureOperationError(error));
                self.step = RecordingClearStep::AdvanceGeneration;
            },
            (RecordingClearStep::AdvanceGeneration, ClearOutcome::Succeeded) => {
                self.step = RecordingClearStep::Publish;
            },
            (RecordingClearStep::Publish, ClearOutcome::Publication(error)) => {
                self.failure = Some(error);
                self.step = RecordingClearStep::Failed;
            },
            (RecordingClearStep::Publish, ClearOutcome::Succeeded) => {
                let kept = self.clearFailure.take();
                match kept {
                    Some(error) => {
                        self.failure = Some(error);
                        self.step = RecordingClearStep::Failed;
                    },
                    None => {
                        self.step = RecordingClearStep::Respond;
                    },
                }
            },
            _ => {},
        }
    }
}

/// Once packets so far are not to be recorded, the generation of the data plane follows, whether or not
/// the recording could be emptied cleanly.
pub proof fn lawClearedTrafficStaysAway(clear: RecordingClearView, outcome: ClearOutcome)
    requires
        clear.step is Clear,
    ensures
        outcome is Succeeded || outcome is Capture ==> nextClear(clear, outcome).step
            is AdvanceGeneration,
        !(nextClear(clear, outcome).step is Failed),
        !(nextClear(clear, outcome).step is Respond),
{
}

// ---------------------------------------------------------------------------
// Recorded bodies
// ---------------------------------------------------------------------------

/// The readable form of a body as clients receive it.
#[derive(Debug)]
pub struct DecodedBodyResponse {
    pub algorithm: String,
    pub contentType: String,
    pub decodedBytes: usize,
    pub base64: String,
}

/// A body as clients receive it.
#[derive(Debug)]
pub struct EncodedBodyResponse {
    pub revision: u64,
    pub base64: String,
    pub decoded: Option<DecodedBodyResponse>,
}

/// Whether a readable form is handed out as it is.
pub open spec fn showsDecoded(response: DecodedBodyResponse, decoded: DecodedBodyView) -> bool {
    &&& response.algorithm@ == decoded.algorithm
    &&& response.contentType@ == decoded.contentType
    &&& response.decodedBytes == decoded.bytes.len()
    &&& response.base64@ == base64Text(decoded.bytes)
}

/// Whether a body is handed out with its readable form, if it has one.
pub open spec fn showsBody(
    response: EncodedBodyResponse,
    revision: u64,
    bytes: Seq<u8>,
    decoded: Option<DecodedBodyView>,
) -> bool {
    &&& response.revision == revision
    &&& response.base64@ == base64Text(bytes)
    &&& match decoded {
        Some(form) => response.decoded matches Some(shown) && showsDecoded(shown, form),
        None => response.decoded is None,
    }
}

/// Hands out a body whose readable form is known.
pub fn encodeBody(revision: u64, bytes: &Vec<u8>, decoded: Option<DecodedApplicationBody>) -> (result:
    EncodedBodyResponse)
    ensures
        showsBody(result, revision, bytes@, optionalBody(decoded)),
{
    let decoded = match decoded {
        Some(form) => Some(
            DecodedBodyResponse {
                algorithm: form.algorithm,
                contentType: form.contentType,
                decodedBytes: form.bytes.len(),
                base64: encodeBase64(form.bytes.as_slice()),
            },
        ),
        None => None,
    };
    EncodedBodyResponse { revision, base64: encodeBase64(bytes.as_slice()), decoded }
}

/// Hands out a recorded body. The recorded bytes always come as they are; a body that cannot be decoded
/// only lacks its readable form.
pub fn transactionBody(
    revision: u64,
    side: MessageSide,
    contentType: &str,
    contentEncoding: &str,
    bytes: &Vec<u8>,
) -> (result: EncodedBodyResponse)
    ensures
        showsBody(
            result,
            revision,
            bytes@,
            decodedForm(side, contentType@, contentEncoding@, bytes@),
        ),
{
    let decoded = decodeApplicationBody(side, contentType, contentEncoding, bytes);
    encodeBody(revision, bytes, decoded)
}

/// A change that meets no failure is read, checked, stored, carried out, published and answered, in this order.
pub proof fn lawRecordingUpdateRunsToItsEnd(update: RecordingUpdateView)
    ensures
        startedUpdate().step == RecordingUpdateStep::Read && startedUpdate().failure is None,
        ({
            let next = |step: RecordingUpdateStep| nextRecordingUpdate(
                RecordingUpdateView { step, ..update },
                None,
            ).step;
            &&& next(RecordingUpdateStep::Read) == RecordingUpdateStep::Validate
            &&& next(RecordingUpdateStep::Validate) == RecordingUpdateStep::Persist
            &&& next(RecordingUpdateStep::Persist) == RecordingUpdateStep::Apply
            &&& next(RecordingUpdateStep::Apply) == RecordingUpdateStep::Publish
            &&& next(RecordingUpdateStep::Publish) == RecordingUpdateStep::Respond
        }),
{
}

/// A change that fails ends there with its reason; what could not be stored is told as such.
pub proof fn lawRecordingUpdateTellsItsFailure(update: RecordingUpdateView, error: ApiErrorView)
    requires
        !(update.step is Respond) && !(update.step is Failed),
    ensures
        nextRecordingUpdate(update, Some(error)).step == RecordingUpdateStep::Failed,
        update.step is Persist ==> nextRecordingUpdate(update, Some(error)).failure == Some(
            plainError(500, ErrorCode::ConfigurationPersistenceFailed),
        ),
        !(update.step is Persist) ==> nextRecordingUpdate(update, Some(error)).failure == Some(error),
{
}

/// A recording is cleared by moving its mark, emptying it, advancing the generation and publishing, in this
/// order; a failure to empty it is told at the end.
pub proof fn lawClearRunsToItsEnd(clear: RecordingClearView, error: CaptureError)
    ensures
        startedClear().step == RecordingClearStep::AdvanceWatermark,
        startedClear().clearFailure is None && startedClear().failure is None,
        ({
            let next = |step: RecordingClearStep| nextClear(
                RecordingClearView { step, ..clear },
                ClearOutcome::Succeeded,
            );
            &&& next(RecordingClearStep::AdvanceWatermark).step == RecordingClearStep::Clear
            &&& next(RecordingClearStep::Clear).step == RecordingClearStep::AdvanceGeneration
            &&& next(RecordingClearStep::AdvanceGeneration).step == RecordingClearStep::Publish
            &&& clear.clearFailure is None ==> next(RecordingClearStep::Publish).step
                == RecordingClearStep::Respond
            &&& clear.clearFailure is Some ==> next(RecordingClearStep::Publish).step
                == RecordingClearStep::Failed && next(RecordingClearStep::Publish).failure
                == clear.clearFailure
        }),
        clear.step is Clear ==> nextClear(clear, ClearOutcome::Capture(error)).clearFailure == Some(
            captureOperationError(error.kind, error.detail@),
        ),
{
}

/// A recorded body is shown whole, and its readable form beside it where it has one.
pub proof fn lawRecordedBodyIsShownWhole(
    response: EncodedBodyResponse,
    revision: u64,
    bytes: Seq<u8>,
    decoded: Option<DecodedBodyView>,
)
    requires
        showsBody(response, revision, bytes, decoded),
    ensures
        response.revision == revision,
        response.base64@ == base64Text(bytes),
        response.decoded is Some <==> decoded is Some,
        decoded matches Some(form) ==> response.decoded->0.base64@ == base64Text(form.bytes)
            && response.decoded->0.decodedBytes == form.bytes.len()
            && response.decoded->0.contentType@ == form.contentType && response.decoded->0.algorithm@
            == form.algorithm,
{
}

} // verus!
