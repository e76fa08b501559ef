//! Revisions of the published state: which reads are consistent and which publications are new.

use crate::controlApi::accountRecovery::dataPlaneSteps::nextGeneration;
use vstd::prelude::*;

verus! {

/// A read is consistent where no low-frequency change came in between.
pub fn projectionRevisionIsStable(expected: u64, current: u64) -> (result: bool)
    ensures
        result == (expected == current),
{
    expected == current
}

/// A snapshot may be handed out where nothing changed while it was read and no configuration
/// transaction is under way; otherwise it is read again.
pub fn snapshotIsConsistent(
    generationBefore: u64,
    generationAfter: u64,
    transactionActive: bool,
) -> (result: bool)
    ensures
        result == (generationBefore == generationAfter && !transactionActive),
{
    projectionRevisionIsStable(generationBefore, generationAfter) && !transactionActive
}

/// Whether a recording change still has to be published.
pub fn recordingViewIsNew(captureRevision: u64, publishedRevision: u64) -> (result: bool)
    ensures
        result == (captureRevision > publishedRevision),
{
    captureRevision > publishedRevision
}

/// The revision counters of the published state. `generation` moves only with changes that a whole
/// snapshot shows; frequent telemetry moves `revision` alone.
#[derive(Clone, Copy, Debug, PartialEq, Eq, Structural)]
pub struct ProjectionRevisions {
    pub revision: u64,
    pub generation: u64,
}

/// The revisions of the three messages that show the running service.
#[derive(Clone, Copy, Debug, PartialEq, Eq, Structural)]
pub struct RuntimeRevisions {
    pub sessions: u64,
    pub metrics: u64,
    pub processCapture: u64,
}

/// The revisions of the two messages that show the recording.
#[derive(Clone, Copy, Debug, PartialEq, Eq, Structural)]
pub struct RecordingRevisions {
    pub recording: u64,
    pub transactions: u64,
}

impl ProjectionRevisions {
    /// The revision of the last message.
    pub fn currentRevision(&self) -> (result: u64)
        ensures
            result == self.revision,
    {
        self.revision
    }

    /// Publishes a change of the whole snapshot and gives its revision.
    pub fn publishProjectionRevisioned(&mut self) -> (result: u64)
        requires
            old(self).revision < u64::MAX,
        ensures
            result == old(self).revision + 1,
            final(self).revision == result,
            final(self).generation == nextGeneration(old(self).generation),
    {
        self.generation = self.generation.wrapping_add(1);
        self.publishEventLocked()
    }

    /// Publishes telemetry and gives its revision.
    pub fn publishEventLocked(&mut self) -> (result: u64)
        requires
            old(self).revision < u64::MAX,
        ensures
            result == old(self).revision + 1,
            final(self).revision == result,
            final(self).generation == old(self).generation,
    {
        self.revision = self.revision + 1;
        self.revision
    }

    /// Publishes what a snapshot shows of the running service, as one batch. A snapshot that was read
    /// under another generation is not published, and is read again.
    pub fn publishRuntimeViews(&mut self, expectedGeneration: u64) -> (result: Option<
        RuntimeRevisions,
    >)
        requires
            old(self).revision <= u64::MAX - 3,
        ensures
            result is Some <==> expectedGeneration == old(self).generation,
            final(self).generation == old(self).generation,
            match result {
                Some(revisions) => {
                    &&& revisions.sessions == old(self).revision + 1
                    &&& revisions.metrics == old(self).revision + 2
                    &&& revisions.processCapture == old(self).revision + 3
                    &&& final(self).revision == old(self).revision + 3
                },
                None => *final(self) == *old(self),
            },
    {
        if !projectionRevisionIsStable(expectedGeneration, self.generation) {
            return None;
        }
        let sessions = self.publishEventLocked();
        let metrics = self.publishEventLocked();
        let processCapture = self.publishEventLocked();
        Some(RuntimeRevisions { sessions, metrics, processCapture })
    }

    /// Publishes a change of the recording, as one batch, unless it was published already. `published`
    /// is the last change that was.
    pub fn publishRecordingViews(&mut self, captureRevision: u64, published: &mut u64) -> (result:
        Option<RecordingRevisions>)
        requires
            old(self).revision <= u64::MAX - 2,
        ensures
            result is Some <==> captureRevision > *old(published),
            final(self).generation == old(self).generation,
            match result {
                Some(revisions) => {
                    &&& revisions.recording == old(self).revision + 1
                    &&& revisions.transactions == old(self).revision + 2
                    &&& final(self).revision == old(self).revision + 2
                    &&& *final(published) == captureRevision
                },
                None => *final(self) == *old(self) && *final(published) == *old(published),
            },
    {
        if !recordingViewIsNew(captureRevision, *published) {
            return None;
        }
        let recording = self.publishEventLocked();
        let transactions = self.publishEventLocked();
        *published = captureRevision;
        Some(RecordingRevisions { recording, transactions })
    }
}

/// A snapshot that was read across a change of the configuration is never handed out: once something
/// is published, the generation is another one.
pub proof fn lawChangesInvalidateReads(generation: u64)
    ensures
        nextGeneration(generation) != generation,
{
}

} // verus!
