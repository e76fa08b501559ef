//! Putting recorded range responses together: which parts of which bodies make up the longest
//! gapless prefix of a resource, and how that prefix is read.

use crate::controlApi::httpControl::{CaptureError, CaptureErrorKind};
use crate::text::copyText;
use vstd::prelude::*;

verus! {

/// The most bytes that one read of a streamed response takes: 256 KiB.
pub const mediaStreamChunkBytes: u64 = 262_144;

/// How many bytes before a seam two overlapping bodies must agree on.
pub const overlapVerificationBytes: u64 = 64;

/// A recorded response that holds the bytes `start..=end` of a resource.
#[derive(Debug)]
pub struct ResponseRangeCandidate {
    pub transactionId: String,
    pub storedBytes: u64,
    pub start: u64,
    pub end: u64,
    pub sequence: u64,
}

/// The part of a candidate's body that continues the prefix.
#[derive(Debug)]
pub struct PlannedRangeSegment {
    pub candidate: usize,
    pub transactionId: String,
    pub storedBytes: u64,
    pub bodyOffset: u64,
    pub length: u64,
}

/// Whether a candidate holds the byte that comes right after the first `captured` bytes.
pub open spec fn reaches(candidate: ResponseRangeCandidate, captured: nat) -> bool {
    candidate.start <= captured <= candidate.end
}

/// Whether candidate `j` is preferred to candidate `i`: it ends later, or is newer, or starts
/// later, or is listed later.
pub open spec fn preferred(candidates: Seq<ResponseRangeCandidate>, i: int, j: int) -> bool {
    let a = candidates[i];
    let b = candidates[j];
    if a.end != b.end {
        a.end < b.end
    } else if a.sequence != b.sequence {
        a.sequence < b.sequence
    } else if a.start != b.start {
        a.start < b.start
    } else {
        i < j
    }
}

/// Whether candidate `i` is the preferred one among all that continue the prefix.
pub open spec fn isBest(candidates: Seq<ResponseRangeCandidate>, captured: nat, i: int) -> bool {
    &&& 0 <= i < candidates.len()
    &&& reaches(candidates[i], captured)
    &&& forall|j: int|
        0 <= j < candidates.len() && j != i && reaches(#[trigger] candidates[j], captured)
            ==> preferred(candidates, j, i)
}

/// The length of the prefix that the first `count` segments make up.
pub open spec fn prefixLength(plan: Seq<PlannedRangeSegment>, count: int) -> nat
    decreases count,
{
    if count <= 0 {
        0
    } else {
        prefixLength(plan, count - 1) + plan[count - 1].length as nat
    }
}

/// Whether a segment continues the prefix with the best candidate.
pub open spec fn continues(
    candidates: Seq<ResponseRangeCandidate>,
    captured: nat,
    segment: PlannedRangeSegment,
) -> bool {
    let i = segment.candidate as int;
    &&& isBest(candidates, captured, i)
    &&& segment.transactionId@ == candidates[i].transactionId@
    &&& segment.storedBytes == candidates[i].storedBytes
    &&& segment.bodyOffset == captured - candidates[i].start
    &&& segment.length == candidates[i].end - captured + 1
}

/// Whether segment `k` continues the prefix that the ones before it make up, short of the end.
#[verifier::opaque]
pub open spec fn isStep(
    candidates: Seq<ResponseRangeCandidate>,
    total: nat,
    plan: Seq<PlannedRangeSegment>,
    k: int,
) -> bool {
    prefixLength(plan, k) < total && continues(candidates, prefixLength(plan, k), plan[k])
}

/// Whether each segment continues the prefix that the ones before it make up.
pub open spec fn isPartialPlan(
    candidates: Seq<ResponseRangeCandidate>,
    total: nat,
    plan: Seq<PlannedRangeSegment>,
) -> bool {
    forall|k: int| 0 <= k < plan.len() ==> #[trigger] isStep(candidates, total, plan, k)
}

/// Whether a list of segments is the plan of a resource: each one continues the prefix that the
/// ones before it make up, and the last one leaves nothing to continue with.
pub open spec fn isPlan(
    candidates: Seq<ResponseRangeCandidate>,
    total: nat,
    plan: Seq<PlannedRangeSegment>,
) -> bool {
    &&& isPartialPlan(candidates, total, plan)
    &&& prefixLength(plan, plan.len() as int) >= total || forall|j: int|
        0 <= j < candidates.len() ==> !reaches(
            #[trigger] candidates[j],
            prefixLength(plan, plan.len() as int),
        )
}

/// Finds the preferred candidate among all that continue the prefix.
fn findBest(candidates: &Vec<ResponseRangeCandidate>, captured: u64) -> (result: Option<usize>)
    ensures
        match result {
            Some(i) => isBest(candidates@, captured as nat, i as int),
            None => forall|j: int|
                0 <= j < candidates@.len() ==> !reaches(
                    #[trigger] candidates@[j],
                    captured as nat,
                ),
        },
{
    let mut best: Option<usize> = None;
    let mut i: usize = 0;
    while i < candidates.len()
        invariant
            i <= candidates.len(),
            match best {
                Some(b) => {
                    &&& b < i
                    &&& reaches(candidates@[b as int], captured as nat)
                    &&& forall|j: int|
                        0 <= j < i && j != b && reaches(
                            #[trigger] candidates@[j],
                            captured as nat,
                        ) ==> preferred(candidates@, j, b as int)
                },
                None => forall|j: int|
                    0 <= j < i ==> !reaches(#[trigger] candidates@[j], captured as nat),
            },
        decreases candidates.len() - i,
    {
        let candidate = &candidates[i];
        if candidate.start <= captured && captured <= candidate.end {
            match best {
                None => {
                    best = Some(i);
                },
                Some(b) => {
                    let current = &candidates[b];
                    let wins = if current.end != candidate.end {
                        current.end < candidate.end
                    } else if current.sequence != candidate.sequence {
                        current.sequence < candidate.sequence
                    } else {
                        current.start <= candidate.start
                    };
                    if wins {
                        assert(preferred(candidates@, b as int, i as int));
                        best = Some(i);
                    } else {
                        assert(preferred(candidates@, i as int, b as int));
                    }
                },
            }
        }
        i += 1;
    }
    best
}

/// A longer list does not change the length of its own prefix.
proof fn lemmaPrefixPush(
    plan: Seq<PlannedRangeSegment>,
    segment: PlannedRangeSegment,
    count: int,
)
    requires
        0 <= count <= plan.len(),
    ensures
        prefixLength(plan.push(segment), count) == prefixLength(plan, count),
    decreases count,
{
    if count > 0 {
        lemmaPrefixPush(plan, segment, count - 1);
        assert(plan.push(segment)[count - 1] == plan[count - 1]);
    }
}

/// One more segment that continues a partial plan makes a longer one.
proof fn lemmaExtendPlan(
    candidates: Seq<ResponseRangeCandidate>,
    total: nat,
    plan: Seq<PlannedRangeSegment>,
    segment: PlannedRangeSegment,
)
    requires
        isPartialPlan(candidates, total, plan),
        prefixLength(plan, plan.len() as int) < total,
        continues(candidates, prefixLength(plan, plan.len() as int), segment),
    ensures
        isPartialPlan(candidates, total, plan.push(segment)),
        prefixLength(plan.push(segment), (plan.len() + 1) as int) == prefixLength(plan, plan.len() as int)
            + segment.length,
{
    let longer = plan.push(segment);
    assert forall|k: int| 0 <= k < longer.len() implies #[trigger] isStep(
        candidates,
        total,
        longer,
        k,
    ) by {
        reveal(isStep);
        lemmaPrefixPush(plan, segment, k);
        if k < plan.len() {
            assert(isStep(candidates, total, plan, k));
            assert(longer[k] == plan[k]);
        }
    }
    lemmaPrefixPush(plan, segment, plan.len() as int);
}

/// Plans the longest gapless prefix of a resource from range metadata alone, and gives its length.
/// A candidate that overlaps the prefix contributes only what the prefix lacks.
pub fn buildMetadataPlan(candidates: &Vec<ResponseRangeCandidate>, total: u64) -> (result: (
    Vec<PlannedRangeSegment>,
    u64,
))
    requires
        forall|j: int| 0 <= j < candidates@.len() ==> (#[trigger] candidates@[j]).end < u64::MAX,
    ensures
        isPlan(candidates@, total as nat, result.0@),
        result.1 == prefixLength(result.0@, result.0@.len() as int),
{
    let mut plan: Vec<PlannedRangeSegment> = Vec::new();
    let mut captured: u64 = 0;
    while captured < total
        invariant
            forall|j: int|
                0 <= j < candidates@.len() ==> (#[trigger] candidates@[j]).end < u64::MAX,
            captured == prefixLength(plan@, plan@.len() as int),
            isPartialPlan(candidates@, total as nat, plan@),
        decreases u64::MAX - captured,
    {
        match findBest(candidates, captured) {
            None => {
                return (plan, captured);
            },
            Some(i) => {
                let candidate = &candidates[i];
                let segment = PlannedRangeSegment {
                    candidate: i,
                    transactionId: copyText(candidate.transactionId.as_str()),
                    storedBytes: candidate.storedBytes,
                    bodyOffset: captured - candidate.start,
                    length: candidate.end - captured + 1,
                };
                proof {
                    lemmaExtendPlan(candidates@, total as nat, plan@, segment);
                }
                plan.push(segment);
                captured = candidate.end + 1;
            },
        }
    }
    (plan, captured)
}

/// A plan covers its prefix without gap or overlap: segment `k` holds exactly the bytes of the
/// resource from where segment `k - 1` ends, and takes them from within its own body.
pub proof fn lawPlanIsContiguous(
    candidates: Seq<ResponseRangeCandidate>,
    total: nat,
    plan: Seq<PlannedRangeSegment>,
    k: int,
)
    requires
        isPlan(candidates, total, plan),
        0 <= k < plan.len(),
    ensures
        candidates[plan[k].candidate as int].start + plan[k].bodyOffset == prefixLength(plan, k),
        prefixLength(plan, k + 1) == candidates[plan[k].candidate as int].end + 1,
        plan[k].length > 0,
        plan[k].bodyOffset + plan[k].length == candidates[plan[k].candidate as int].end
            - candidates[plan[k].candidate as int].start + 1,
{
    reveal(isStep);
    assert(isStep(candidates, total, plan, k));
}

/// The same candidates give the same plan.
pub proof fn lawPlanIsUnique(
    candidates: Seq<ResponseRangeCandidate>,
    total: nat,
    first: Seq<PlannedRangeSegment>,
    second: Seq<PlannedRangeSegment>,
    k: int,
)
    requires
        isPlan(candidates, total, first),
        isPlan(candidates, total, second),
        0 <= k <= first.len(),
    ensures
        k <= second.len(),
        prefixLength(first, k) == prefixLength(second, k),
        k < first.len() ==> k < second.len() && first[k].candidate == second[k].candidate
            && first[k].bodyOffset == second[k].bodyOffset && first[k].length == second[k].length,
    decreases k,
{
    if k > 0 {
        lawPlanIsUnique(candidates, total, first, second, k - 1);
    }
    if k < first.len() {
        reveal(isStep);
        let captured = prefixLength(first, k);
        assert(isStep(candidates, total, first, k));
        assert(reaches(candidates[first[k].candidate as int], captured));
        if k < second.len() {
            assert(isStep(candidates, total, second, k));
            let i = first[k].candidate as int;
            let j = second[k].candidate as int;
            assert(reaches(candidates[j], captured));
            if i != j {
                assert(preferred(candidates, i, j));
                assert(preferred(candidates, j, i));
            }
        }
    }
}

/// A plan stops short of the resource only where no recorded response continues it.
pub proof fn lawPlanIsMaximal(
    candidates: Seq<ResponseRangeCandidate>,
    total: nat,
    plan: Seq<PlannedRangeSegment>,
    j: int,
)
    requires
        isPlan(candidates, total, plan),
        prefixLength(plan, plan.len() as int) < total,
        0 <= j < candidates.len(),
    ensures
        candidates[j].end < prefixLength(plan, plan.len() as int) || candidates[j].start
            > prefixLength(plan, plan.len() as int),
{
    assert(!reaches(candidates[j], prefixLength(plan, plan.len() as int)));
}

// ---------------------------------------------------------------------------
// Seams
// ---------------------------------------------------------------------------

/// The bytes that must agree on both sides of a seam.
#[derive(Clone, Copy, Debug, PartialEq, Eq, Structural)]
pub struct SeamWindow {
    pub virtualOffset: u64,
    pub bodyOffset: u64,
    pub length: u64,
}

/// Which bytes of the prefix and of the next body must agree: up to 64 bytes right before the
/// seam. A body that starts exactly at the seam has nothing to compare.
pub fn seamWindow(captured: u64, bodyOffset: u64) -> (result: Option<SeamWindow>)
    requires
        bodyOffset <= captured,
    ensures
        result is None <==> bodyOffset == 0,
        match result {
            Some(window) => {
                &&& window.length == if bodyOffset < overlapVerificationBytes {
                    bodyOffset
                } else {
                    overlapVerificationBytes
                }
                &&& window.virtualOffset + window.length == captured
                &&& window.bodyOffset + window.length == bodyOffset
            },
            None => true,
        },
{
    let length = if bodyOffset < overlapVerificationBytes {
        bodyOffset
    } else {
        overlapVerificationBytes
    };
    if length == 0 {
        None
    } else {
        Some(
            SeamWindow {
                virtualOffset: captured - length,
                bodyOffset: bodyOffset - length,
                length,
            },
        )
    }
}

/// What opening one planned segment showed.
#[derive(Debug)]
pub enum SegmentObservation {
    /// The body is no longer the one that was planned.
    BodyChanged,
    /// The bytes before the seam could not be read from the segments so far.
    PrefixUnreadable,
    /// The bytes before the seam could not be read from the body itself.
    BodyUnreadable(CaptureError),
    /// The bytes before the seam, from the segments so far and from the body itself; none where there
    /// are none to compare.
    Seam { expected: Vec<u8>, actual: Vec<u8> },
}

/// How the next segment is settled.
#[derive(Debug)]
pub enum SegmentVerdict {
    Accept,
    StopBefore,
    Failed(CaptureError),
}

/// Whether an error says that a body is not there.
pub open spec fn isBodyNotFound(error: CaptureError) -> bool {
    error.kind == CaptureErrorKind::BodyNotFound && error.detail@.len() == 0
}

/// Whether a verdict is the one that an observation calls for: a changed body and an unreadable one
/// fail the preview, a differing seam ends the prefix before it.
pub open spec fn isSegmentVerdict(observation: SegmentObservation, verdict: SegmentVerdict) -> bool {
    match observation {
        SegmentObservation::BodyChanged => verdict matches SegmentVerdict::Failed(error)
            && isBodyNotFound(error),
        SegmentObservation::PrefixUnreadable => verdict matches SegmentVerdict::Failed(error)
            && isBodyNotFound(error),
        SegmentObservation::BodyUnreadable(cause) => verdict == SegmentVerdict::Failed(cause),
        SegmentObservation::Seam { expected, actual } => if expected@ == actual@ {
            verdict is Accept
        } else {
            verdict is StopBefore
        },
    }
}

fn equalBytes(left: &Vec<u8>, right: &Vec<u8>) -> (result: bool)
    ensures
        result == (left@ == right@),
{
    if left.len() != right.len() {
        return false;
    }
    let mut i: usize = 0;
    while i < left.len()
        invariant
            i <= left.len() == right.len(),
            forall|k: int| 0 <= k < i ==> left@[k] == right@[k],
        decreases left.len() - i,
    {
        if left[i] != right[i] {
            assert(left@[i as int] != right@[i as int]);
            return false;
        }
        i += 1;
    }
    assert(left@ == right@);
    true
}

fn bodyNotFound() -> (result: CaptureError)
    ensures
        isBodyNotFound(result),
{
    CaptureError { kind: CaptureErrorKind::BodyNotFound, detail: String::new() }
}

/// Settles a segment. An error of its own body is handed on as it is.
pub fn settleSegment(observation: SegmentObservation) -> (result: SegmentVerdict)
    ensures
        isSegmentVerdict(observation, result),
{
    match observation {
        SegmentObservation::BodyChanged => SegmentVerdict::Failed(bodyNotFound()),
        SegmentObservation::PrefixUnreadable => SegmentVerdict::Failed(bodyNotFound()),
        SegmentObservation::BodyUnreadable(cause) => SegmentVerdict::Failed(cause),
        SegmentObservation::Seam { expected, actual } => if equalBytes(&expected, &actual) {
            SegmentVerdict::Accept
        } else {
            SegmentVerdict::StopBefore
        },
    }
}

// ---------------------------------------------------------------------------
// The virtual body
// ---------------------------------------------------------------------------

/// A contiguous part of one leased body inside the virtual body.
#[derive(Clone, Copy, Debug, PartialEq, Eq, Structural)]
pub struct PreviewSegment {
    pub bodyOffset: u64,
    pub length: u64,
}

/// The length of the first `count` segments.
pub open spec fn spanOf(segments: Seq<PreviewSegment>, count: int) -> nat
    decreases count,
{
    if count <= 0 {
        0
    } else {
        spanOf(segments, count - 1) + segments[count - 1].length as nat
    }
}

/// Whether every position inside the virtual body and inside each leased body fits 64 bits.
pub open spec fn segmentsValid(segments: Seq<PreviewSegment>) -> bool {
    &&& spanOf(segments, segments.len() as int) <= u64::MAX
    &&& forall|k: int|
        0 <= k < segments.len() ==> (#[trigger] segments[k]).bodyOffset + segments[k].length
            <= u64::MAX
}

/// The length of the first segments depends on those alone.
proof fn lemmaSpanOfPrefix(segments: Seq<PreviewSegment>, more: PreviewSegment, count: int)
    requires
        count <= segments.len(),
    ensures
        spanOf(segments.push(more), count) == spanOf(segments, count),
    decreases count,
{
    if count > 0 {
        lemmaSpanOfPrefix(segments, more, count - 1);
    }
}

/// The segments of a plan whose bodies are leased and whose seams agree.
#[derive(Debug)]
pub struct LeasedPrefix {
    pub segments: Vec<PreviewSegment>,
    pub capturedBytes: u64,
}

/// How leasing a plan goes on.
#[derive(Debug)]
pub enum LeaseVerdict {
    /// The segment is taken; the next one follows.
    Taken,
    /// The prefix ends before the segment.
    EndBefore,
    /// The preview fails.
    Failed(CaptureError),
    /// The preview fails, since the prefix is too long.
    InvalidBodyLength,
}

/// Whether a verdict is the one for a segment of some length behind `captured` bytes.
pub open spec fn isLeaseVerdict(
    captured: u64,
    length: u64,
    observation: SegmentObservation,
    verdict: LeaseVerdict,
) -> bool {
    match verdict {
        LeaseVerdict::Taken => isSegmentVerdict(observation, SegmentVerdict::Accept) && captured
            + length <= u64::MAX,
        LeaseVerdict::InvalidBodyLength => isSegmentVerdict(observation, SegmentVerdict::Accept)
            && captured + length > u64::MAX,
        LeaseVerdict::EndBefore => isSegmentVerdict(observation, SegmentVerdict::StopBefore),
        LeaseVerdict::Failed(error) => isSegmentVerdict(observation, SegmentVerdict::Failed(error)),
    }
}

impl LeasedPrefix {
    /// What always holds: the captured bytes are those of the segments.
    pub open spec fn wf(&self) -> bool {
        self.capturedBytes == spanOf(self.segments@, self.segments@.len() as int)
    }

    /// No segment yet.
    pub fn new() -> (result: LeasedPrefix)
        ensures
            result.wf(),
            result.segments@.len() == 0,
            result.capturedBytes == 0,
    {
        LeasedPrefix { segments: Vec::new(), capturedBytes: 0 }
    }

    /// Takes the next segment of a plan, if what opening it showed allows that.
    pub fn leasePlannedSegments(
        &mut self,
        planned: &PlannedRangeSegment,
        observation: SegmentObservation,
    ) -> (result: LeaseVerdict)
        requires
            old(self).wf(),
        ensures
            final(self).wf(),
            isLeaseVerdict(old(self).capturedBytes, planned.length, observation, result),
            if result is Taken {
                &&& final(self).segments@ == old(self).segments@.push(
                    PreviewSegment { bodyOffset: planned.bodyOffset, length: planned.length },
                )
                &&& final(self).capturedBytes == old(self).capturedBytes + planned.length
            } else {
                *final(self) == *old(self)
            },
    {
        match settleSegment(observation) {
            SegmentVerdict::Failed(error) => LeaseVerdict::Failed(error),
            SegmentVerdict::StopBefore => LeaseVerdict::EndBefore,
            SegmentVerdict::Accept => match self.capturedBytes.checked_add(planned.length) {
                Some(capturedBytes) => {
                    let segment = PreviewSegment {
                        bodyOffset: planned.bodyOffset,
                        length: planned.length,
                    };
                    proof {
                        lemmaSpanOfPrefix(self.segments@, segment, self.segments@.len() as int);
                    }
                    self.segments.push(segment);
                    self.capturedBytes = capturedBytes;
                    LeaseVerdict::Taken
                },
                None => LeaseVerdict::InvalidBodyLength,
            },
        }
    }
}

/// Longer spans are at least as long.
pub proof fn lemmaSpanMonotone(segments: Seq<PreviewSegment>, i: int, j: int)
    requires
        i <= j,
    ensures
        spanOf(segments, i) <= spanOf(segments, j),
    decreases j - i,
{
    if i < j {
        lemmaSpanMonotone(segments, i, j - 1);
    }
}

/// Where a byte of the virtual body lies: in which segment, and at which offset of its body.
pub open spec fn located(segments: Seq<PreviewSegment>, position: nat, segment: int, body: nat) -> bool {
    &&& 0 <= segment < segments.len()
    &&& spanOf(segments, segment) <= position < spanOf(segments, segment + 1)
    &&& body == segments[segment].bodyOffset + (position - spanOf(segments, segment))
}

/// A read of consecutive bytes from one leased body.
#[derive(Clone, Copy, Debug, PartialEq, Eq, Structural)]
pub struct BodyRead {
    pub segment: usize,
    pub bodyOffset: u64,
    pub length: u64,
}

/// How many bytes the first `count` reads take.
pub open spec fn readSpan(reads: Seq<BodyRead>, count: int) -> nat
    decreases count,
{
    if count <= 0 {
        0
    } else {
        readSpan(reads, count - 1) + reads[count - 1].length as nat
    }
}

/// Whether a read takes exactly the bytes of the virtual body from `position` on.
pub open spec fn readsAt(segments: Seq<PreviewSegment>, position: nat, read: BodyRead) -> bool {
    forall|d: int|
        0 <= d < read.length ==> #[trigger] located(
            segments,
            (position + d) as nat,
            read.segment as int,
            (read.bodyOffset + d) as nat,
        )
}

/// Whether a list of reads takes exactly `length` bytes of the virtual body from `offset` on.
pub open spec fn coversRange(
    segments: Seq<PreviewSegment>,
    offset: nat,
    length: nat,
    reads: Seq<BodyRead>,
) -> bool {
    &&& readSpan(reads, reads.len() as int) == length
    &&& forall|k: int|
        0 <= k < reads.len() ==> readsAt(
            segments,
            (offset + readSpan(reads, k)) as nat,
            #[trigger] reads[k],
        )
}

proof fn lemmaReadSpanPush(reads: Seq<BodyRead>, read: BodyRead, count: int)
    requires
        0 <= count <= reads.len(),
    ensures
        readSpan(reads.push(read), count) == readSpan(reads, count),
    decreases count,
{
    if count > 0 {
        lemmaReadSpanPush(reads, read, count - 1);
        assert(reads.push(read)[count - 1] == reads[count - 1]);
    }
}

/// Maps a small random access read of the virtual body to reads of the leased bodies. `None`
/// exactly where the virtual body does not hold all of the bytes.
pub fn planVirtualRead(segments: &Vec<PreviewSegment>, offset: u64, length: u64) -> (result: Option<
    Vec<BodyRead>,
>)
    requires
        segmentsValid(segments@),
        length > 0,
    ensures
        match result {
            Some(reads) => coversRange(segments@, offset as nat, length as nat, reads@),
            None => true,
        },
        result is Some <==> offset + length <= spanOf(segments@, segments@.len() as int),
{
    let mut reads: Vec<BodyRead> = Vec::new();
    let mut virtualStart: u64 = 0;
    let mut taken: u64 = 0;
    let mut i: usize = 0;
    while i < segments.len()
        invariant
            i <= segments.len(),
            segmentsValid(segments@),
            0 < length,
            virtualStart == spanOf(segments@, i as int),
            taken == readSpan(reads@, reads@.len() as int),
            taken < length,
            taken > 0 ==> offset + taken == virtualStart,
            taken == 0 ==> virtualStart <= offset,
            forall|k: int|
                0 <= k < reads@.len() ==> readsAt(
                    segments@,
                    (offset + readSpan(reads@, k)) as nat,
                    #[trigger] reads@[k],
                ),
        decreases segments.len() - i,
    {
        let segment = segments[i];
        proof {
            lemmaSpanMonotone(segments@, i + 1, segments@.len() as int);
        }
        let virtualEnd = virtualStart + segment.length;
        if taken == 0 && offset >= virtualEnd {
            virtualStart = virtualEnd;
            i += 1;
            continue;
        }
        let position: u64 = if taken == 0 {
            offset
        } else {
            virtualStart
        };
        let segmentOffset = position - virtualStart;
        let available = segment.length - segmentOffset;
        let wanted = length - taken;
        let count = if wanted < available {
            wanted
        } else {
            available
        };
        let read = BodyRead { segment: i, bodyOffset: segment.bodyOffset + segmentOffset, length: count };
        let ghost before = reads@;
        proof {
            assert(position == offset + taken);
            assert forall|d: int| 0 <= d < read.length implies #[trigger] located(
                segments@,
                (position + d) as nat,
                read.segment as int,
                (read.bodyOffset + d) as nat,
            ) by {}
            assert forall|k: int| 0 <= k <= before.len() implies readSpan(before.push(read), k)
                == #[trigger] readSpan(before, k) by {
                lemmaReadSpanPush(before, read, k);
            }
        }
        reads.push(read);
        taken = taken + count;
        proof {
            assert forall|k: int| 0 <= k < reads@.len() implies readsAt(
                segments@,
                (offset + readSpan(reads@, k)) as nat,
                #[trigger] reads@[k],
            ) by {
                assert(readSpan(reads@, k) == readSpan(before, k));
                if k < before.len() {
                    assert(reads@[k] == before[k]);
                }
            }
            assert(readSpan(before, before.len() as int) == readSpan(reads@, before.len() as int));
        }
        if taken == length {
            return Some(reads);
        }
        virtualStart = virtualEnd;
        i += 1;
    }
    None
}

// ---------------------------------------------------------------------------
// Streaming
// ---------------------------------------------------------------------------

/// Where a streamed response stands.
#[derive(Clone, Copy, Debug, PartialEq, Eq, Structural)]
pub struct PreviewStreamState {
    pub segmentIndex: usize,
    pub segmentOffset: u64,
    pub remainingBytes: u64,
}

/// Why a streamed response breaks off.
#[derive(Clone, Copy, Debug, PartialEq, Eq, Structural)]
pub enum PreviewStreamError {
    BodyChanged,
    ReadFailed,
    PlanEndedEarly,
}

/// What a streamed response does when it is polled.
#[derive(Clone, Copy, Debug, PartialEq, Eq, Structural)]
pub enum PreviewPoll {
    Finished,
    Read(BodyRead),
    Fail(PreviewStreamError),
}

/// How a read of a chunk ended.
#[derive(Clone, Copy, Debug, PartialEq, Eq, Structural)]
pub enum ChunkOutcome {
    Received(u64),
    Failed,
}

impl PreviewStreamState {
    /// The position in the virtual body of the next byte to send.
    pub open spec fn position(&self, segments: Seq<PreviewSegment>) -> nat {
        spanOf(segments, self.segmentIndex as int) + self.segmentOffset as nat
    }

    /// Whether everything that is left to send lies in the virtual body.
    pub open spec fn wf(&self, segments: Seq<PreviewSegment>) -> bool {
        &&& self.segmentIndex <= segments.len()
        &&& self.segmentIndex < segments.len() ==> self.segmentOffset
            <= segments[self.segmentIndex as int].length
        &&& self.segmentIndex == segments.len() ==> self.segmentOffset == 0
        &&& self.position(segments) + self.remainingBytes <= spanOf(
            segments,
            segments.len() as int,
        )
    }
}

/// The state that streams a window of the virtual body.
pub fn streamPreviewBody(segments: &Vec<PreviewSegment>, offset: u64, length: u64) -> (result:
    PreviewStreamState)
    requires
        segmentsValid(segments@),
        offset + length <= spanOf(segments@, segments@.len() as int),
    ensures
        result.wf(segments@),
        result.position(segments@) == offset,
        result.remainingBytes == length,
{
    let mut skipped: u64 = 0;
    let mut index: usize = 0;
    while index < segments.len() && segments[index].length <= offset - skipped
        invariant
            index <= segments.len(),
            segmentsValid(segments@),
            skipped == spanOf(segments@, index as int),
            skipped <= offset,
        decreases segments.len() - index,
    {
        proof {
            lemmaSpanMonotone(segments@, index + 1, segments@.len() as int);
        }
        skipped = skipped + segments[index].length;
        index += 1;
    }
    PreviewStreamState { segmentIndex: index, segmentOffset: offset - skipped, remainingBytes: length }
}

impl PreviewStreamState {
    /// Decides what the next poll does. Nothing is read ahead: one poll reads at most one chunk,
    /// within one segment and within what is left to send.
    pub fn nextPreviewChunk(&mut self, segments: &Vec<PreviewSegment>) -> (result: PreviewPoll)
        requires
            segmentsValid(segments@),
            old(self).wf(segments@),
        ensures
            final(self).wf(segments@),
            final(self).position(segments@) == old(self).position(segments@),
            final(self).remainingBytes == old(self).remainingBytes,
            match result {
                PreviewPoll::Finished => old(self).remainingBytes == 0,
                PreviewPoll::Read(read) => {
                    &&& old(self).remainingBytes > 0
                    &&& 0 < read.length <= mediaStreamChunkBytes
                    &&& read.length <= old(self).remainingBytes
                    &&& read.segment == final(self).segmentIndex
                    &&& final(self).segmentOffset + read.length
                        <= segments@[read.segment as int].length
                    &&& readsAt(segments@, old(self).position(segments@), read)
                    &&& read.length < mediaStreamChunkBytes && read.length
                        < old(self).remainingBytes ==> final(self).segmentOffset + read.length
                        == segments@[read.segment as int].length
                },
                PreviewPoll::Fail(_) => false,
            },
    {
        if self.remainingBytes == 0 {
            return PreviewPoll::Finished;
        }
        while self.segmentIndex < segments.len() && self.segmentOffset
            == segments[self.segmentIndex].length
            invariant
                segmentsValid(segments@),
                self.wf(segments@),
                self.position(segments@) == old(self).position(segments@),
                self.remainingBytes == old(self).remainingBytes,
            decreases segments.len() - self.segmentIndex,
        {
            self.segmentIndex = self.segmentIndex + 1;
            self.segmentOffset = 0;
        }
        if self.segmentIndex >= segments.len() {
            return PreviewPoll::Fail(PreviewStreamError::PlanEndedEarly);
        }
        let segment = segments[self.segmentIndex];
        let available = segment.length - self.segmentOffset;
        let mut count = mediaStreamChunkBytes;
        if available < count {
            count = available;
        }
        if self.remainingBytes < count {
            count = self.remainingBytes;
        }
        let read = BodyRead {
            segment: self.segmentIndex,
            bodyOffset: segment.bodyOffset + self.segmentOffset,
            length: count,
        };
        proof {
            assert forall|d: int| 0 <= d < read.length implies #[trigger] located(
                segments@,
                (self.position(segments@) + d) as nat,
                read.segment as int,
                (read.bodyOffset + d) as nat,
            ) by {}
        }
        PreviewPoll::Read(read)
    }

    /// Settles a read. Only a read of exactly the wanted length moves on; everything else breaks
    /// the response off, so that a short body never passes for a whole one. A failure is reported
    /// once: nothing is left to send behind it.
    pub fn settleChunk(&mut self, segments: &Vec<PreviewSegment>, wanted: u64, outcome: ChunkOutcome) -> (result:
        Result<(), PreviewStreamError>)
        requires
            segmentsValid(segments@),
            old(self).wf(segments@),
            old(self).segmentIndex < segments@.len(),
            old(self).segmentOffset + wanted <= segments@[old(self).segmentIndex as int].length,
            wanted <= old(self).remainingBytes,
        ensures
            result is Ok <==> outcome == ChunkOutcome::Received(wanted),
            match result {
                Ok(_) => {
                    &&& final(self).wf(segments@)
                    &&& final(self).position(segments@) == old(self).position(segments@) + wanted
                    &&& final(self).remainingBytes == old(self).remainingBytes - wanted
                },
                Err(error) => {
                    &&& error == match outcome {
                        ChunkOutcome::Received(_) => PreviewStreamError::BodyChanged,
                        ChunkOutcome::Failed => PreviewStreamError::ReadFailed,
                    }
                    &&& final(self).wf(segments@)
                    &&& final(self).remainingBytes == 0
                },
            },
    {
        let error = match outcome {
            ChunkOutcome::Received(count) => if count == wanted {
                self.segmentOffset = self.segmentOffset + wanted;
                self.remainingBytes = self.remainingBytes - wanted;
                return Ok(());
            } else {
                PreviewStreamError::BodyChanged
            },
            ChunkOutcome::Failed => PreviewStreamError::ReadFailed,
        };
        self.segmentIndex = segments.len();
        self.segmentOffset = 0;
        self.remainingBytes = 0;
        Err(error)
    }
}

/// Every step of a plan takes the recorded range that reaches furthest, and among those the latest: no other
/// range that holds the next byte ends later, nor as late and was recorded later.
pub proof fn lawPlanReachesFurthest(
    candidates: Seq<ResponseRangeCandidate>,
    total: nat,
    plan: Seq<PlannedRangeSegment>,
    k: int,
    j: int,
)
    requires
        isPlan(candidates, total, plan),
        0 <= k < plan.len(),
        0 <= j < candidates.len(),
        candidates[j].start <= prefixLength(plan, k) <= candidates[j].end,
    ensures
        ({
            let taken = candidates[plan[k].candidate as int];
            &&& candidates[j].end <= taken.end
            &&& candidates[j].end == taken.end ==> candidates[j].sequence <= taken.sequence
            &&& taken.start <= prefixLength(plan, k) <= taken.end
            &&& plan[k].transactionId@ == taken.transactionId@
            &&& plan[k].storedBytes == taken.storedBytes
        }),
{
    reveal(isStep);
    assert(isStep(candidates, total, plan, k));
    let captured = prefixLength(plan, k);
    let i = plan[k].candidate as int;
    assert(continues(candidates, captured, plan[k]));
    assert(isBest(candidates, captured, i));
    assert(reaches(candidates[j], captured));
    if j != i {
        assert(preferred(candidates, j, i));
    }
}

/// A plan begins wherever a recorded range holds the first byte, and goes on as long as one holds the next.
pub proof fn lawPlanGoesOn(
    candidates: Seq<ResponseRangeCandidate>,
    total: nat,
    plan: Seq<PlannedRangeSegment>,
    j: int,
)
    requires
        isPlan(candidates, total, plan),
        0 < total,
        0 <= j < candidates.len(),
        candidates[j].start == 0,
    ensures
        plan.len() > 0,
        prefixLength(plan, plan.len() as int) > candidates[j].end || prefixLength(
            plan,
            plan.len() as int,
        ) >= total,
{
    if plan.len() == 0 {
        assert(reaches(candidates[j], 0));
        assert(prefixLength(plan, 0) == 0);
    } else {
        let end = prefixLength(plan, plan.len() as int);
        if end < total && end <= candidates[j].end {
            assert(reaches(candidates[j], end));
        }
    }
}

/// A seam is accepted exactly where both sides hold the same bytes; where they differ the prefix ends before,
/// and a body that changed or cannot be read fails the preview.
pub proof fn lawSeamDecides(observation: SegmentObservation, verdict: SegmentVerdict)
    requires
        isSegmentVerdict(observation, verdict),
    ensures
        verdict is Accept <==> (observation matches SegmentObservation::Seam { expected, actual }
            && expected@ == actual@),
        verdict is StopBefore <==> (observation matches SegmentObservation::Seam { expected, actual }
            && expected@ != actual@),
        observation matches SegmentObservation::BodyUnreadable(cause) ==> verdict
            == SegmentVerdict::Failed(cause),
        observation is BodyChanged || observation is PrefixUnreadable ==> (verdict
            matches SegmentVerdict::Failed(error) && error.kind == CaptureErrorKind::BodyNotFound),
{
}

/// The bytes that are read for a window are those of the window, in their order: a byte of a read is the one that
/// stands so many places into its segment as its place in the window says, and the reads together are as long as the
/// window.
pub proof fn lawReadsFillTheWindow(
    segments: Seq<PreviewSegment>,
    offset: nat,
    length: nat,
    reads: Seq<BodyRead>,
    k: int,
    d: int,
)
    requires
        coversRange(segments, offset, length, reads),
        0 <= k < reads.len(),
        0 <= d < reads[k].length,
    ensures
        0 <= reads[k].segment < segments.len(),
        reads[k].bodyOffset >= segments[reads[k].segment as int].bodyOffset,
        reads[k].bodyOffset + d < segments[reads[k].segment as int].bodyOffset
            + segments[reads[k].segment as int].length,
        spanOf(segments, reads[k].segment as int) + (reads[k].bodyOffset
            - segments[reads[k].segment as int].bodyOffset) == offset + readSpan(reads, k),
        readSpan(reads, k + 1) == readSpan(reads, k) + reads[k].length,
        readSpan(reads, 0) == 0,
        readSpan(reads, reads.len() as int) == length,
        spanOf(segments, 0) == 0,
        spanOf(segments, reads[k].segment as int + 1) == spanOf(segments, reads[k].segment as int)
            + segments[reads[k].segment as int].length,
{
    let read = reads[k];
    let position = (offset + readSpan(reads, k)) as nat;
    assert(readsAt(segments, position, read));
    assert(located(
        segments,
        (position + d) as nat,
        read.segment as int,
        (read.bodyOffset + d) as nat,
    ));
    assert(located(
        segments,
        (position + 0int) as nat,
        read.segment as int,
        (read.bodyOffset + 0int) as nat,
    ));
}

/// A segment is taken where its bytes continue those before it and the whole still counts; where they do not, the
/// body ends before it, and a segment that cannot be read fails.
pub proof fn lawSegmentIsTaken(
    captured: u64,
    length: u64,
    expected: Vec<u8>,
    actual: Vec<u8>,
    cause: CaptureError,
    verdict: LeaseVerdict,
)
    ensures
        expected@ == actual@ && captured + length < 0x1_0000_0000_0000_0000 ==> (isLeaseVerdict(
            captured,
            length,
            SegmentObservation::Seam { expected, actual },
            verdict,
        ) <==> verdict is Taken),
        expected@ == actual@ && captured + length >= 0x1_0000_0000_0000_0000 ==> (isLeaseVerdict(
            captured,
            length,
            SegmentObservation::Seam { expected, actual },
            verdict,
        ) <==> verdict is InvalidBodyLength),
        expected@ != actual@ ==> (isLeaseVerdict(
            captured,
            length,
            SegmentObservation::Seam { expected, actual },
            verdict,
        ) <==> verdict is EndBefore),
        isLeaseVerdict(captured, length, SegmentObservation::BodyUnreadable(cause), verdict) <==> verdict
            == LeaseVerdict::Failed(cause),
{
}

} // verus!
