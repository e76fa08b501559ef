//! Recognising the tracks of an ISO base media file by its box structure, one bounded read at a
//! time. The walk only follows box boundaries; it never searches payload bytes.

use crate::text::copyText;
use vstd::prelude::*;

verus! {

/// How many boxes a walk may inspect.
pub const maximumIsoBoxCount: usize = 4_096;

/// How deep a walk may descend into containers.
pub const maximumIsoBoxDepth: usize = 8;

/// The four-character codes of the boxes that matter, as big-endian numbers.
pub const ftypCode: u32 = 0x6674_7970;

pub const stypCode: u32 = 0x7374_7970;

pub const moovCode: u32 = 0x6d6f_6f76;

pub const trakCode: u32 = 0x7472_616b;

pub const mdiaCode: u32 = 0x6d64_6961;

pub const hdlrCode: u32 = 0x6864_6c72;

pub const sounCode: u32 = 0x736f_756e;

pub const videCode: u32 = 0x7669_6465;

/// What a walk has found.
#[derive(Clone, Copy, Debug, PartialEq, Eq, Structural)]
pub struct IsoTrackKinds {
    pub isIsoBmff: bool,
    pub hasAudio: bool,
    pub hasVideo: bool,
}

/// A validated box: its code and the bounds of its payload.
#[derive(Clone, Copy, Debug, PartialEq, Eq, Structural)]
pub struct IsoBoxHeader {
    pub boxType: u32,
    pub payloadStart: u64,
    pub boxEnd: u64,
}

/// A stretch of sibling boxes that is still to be walked.
#[derive(Clone, Copy, Debug, PartialEq, Eq, Structural)]
pub struct IsoRegion {
    pub cursor: u64,
    pub end: u64,
    pub depth: usize,
    pub insideMedia: bool,
}

/// What a walk waits for.
#[derive(Clone, Copy, Debug, PartialEq, Eq, Structural)]
pub enum IsoPhase {
    /// The header of the very first box, which tells whether this is such a file at all.
    FirstBox,
    /// The header of the box at the cursor.
    BoxHeader,
    /// The 64-bit size of the box at the cursor.
    ExtendedSize { boxType: u32, first: bool },
    /// The handler type of a media box.
    Handler(IsoBoxHeader),
    /// Nothing: the walk is over.
    Done,
}

/// The state of a walk.
#[derive(Debug)]
pub struct IsoInspector {
    pub total: u64,
    pub regions: Vec<IsoRegion>,
    pub current: IsoRegion,
    pub inspectedBoxes: usize,
    pub tracks: IsoTrackKinds,
    pub phase: IsoPhase,
}

/// The mathematical value of a walk.
pub struct IsoWalk {
    pub total: u64,
    pub regions: Seq<IsoRegion>,
    pub current: IsoRegion,
    pub inspectedBoxes: usize,
    pub tracks: IsoTrackKinds,
    pub phase: IsoPhase,
}

impl View for IsoInspector {
    type V = IsoWalk;

    open spec fn view(&self) -> IsoWalk {
        IsoWalk {
            total: self.total,
            regions: self.regions@,
            current: self.current,
            inspectedBoxes: self.inspectedBoxes,
            tracks: self.tracks,
            phase: self.phase,
        }
    }
}

/// The bytes that were read, where they could be.
pub open spec fn bytesView(bytes: Option<Vec<u8>>) -> Option<Seq<u8>> {
    match bytes {
        Some(read) => Some(read@),
        None => None,
    }
}

/// The number that bytes write, most significant first.
pub open spec fn bigEndian(bytes: Seq<u8>) -> nat
    decreases bytes.len(),
{
    if bytes.len() == 0 {
        0
    } else {
        bigEndian(bytes.drop_last()) * 256 + bytes.last() as nat
    }
}

/// Reads the number in four bytes.
fn readU32(bytes: &Vec<u8>, at: usize) -> (result: u32)
    requires
        at + 4 <= bytes.len(),
    ensures
        result == bigEndian(bytes@.subrange(at as int, at + 4)),
{
    let mut value: u32 = 0;
    let mut i: usize = 0;
    while i < 4
        invariant
            i <= 4,
            at + 4 <= bytes.len(),
            value == bigEndian(bytes@.subrange(at as int, at + i)),
            i == 0 ==> value == 0,
            i == 1 ==> value < 0x100,
            i == 2 ==> value < 0x1_0000,
            i == 3 ==> value < 0x100_0000,
        decreases 4 - i,
    {
        assert(bytes@.subrange(at as int, at + i + 1).drop_last() == bytes@.subrange(
            at as int,
            at + i,
        ));
        value = value * 256 + bytes[at + i] as u32;
        i += 1;
    }
    value
}

/// Eight bytes hold two numbers of four bytes.
proof fn lemmaBigEndianSplit(bytes: Seq<u8>)
    requires
        bytes.len() == 8,
    ensures
        bigEndian(bytes) == bigEndian(bytes.subrange(0, 4)) * 0x1_0000_0000 + bigEndian(
            bytes.subrange(4, 8),
        ),
{
    reveal_with_fuel(bigEndian, 10);
    let high = bytes.subrange(0, 4);
    let low = bytes.subrange(4, 8);
    assert(bytes.drop_last().drop_last().drop_last().drop_last() == high);
    assert(low.drop_last().drop_last().drop_last().drop_last().len() == 0);
}

/// Reads the number in eight bytes.
fn readU64(bytes: &Vec<u8>) -> (result: u64)
    requires
        bytes@.len() == 8,
    ensures
        result == bigEndian(bytes@),
{
    let high = readU32(bytes, 0);
    let low = readU32(bytes, 4);
    proof {
        lemmaBigEndianSplit(bytes@);
    }
    high as u64 * 0x1_0000_0000 + low as u64
}

/// The header of a box of a known size, where it fits its region.
pub open spec fn boundedHeader(
    region: IsoRegion,
    boxType: u32,
    size: nat,
    headerBytes: nat,
) -> Option<IsoBoxHeader> {
    if size >= headerBytes && region.cursor + size <= region.end {
        Some(
            IsoBoxHeader {
                boxType,
                payloadStart: (region.cursor + headerBytes) as u64,
                boxEnd: (region.cursor + size) as u64,
            },
        )
    } else {
        None
    }
}

fn boundHeader(region: IsoRegion, boxType: u32, size: u64, headerBytes: u64) -> (result: Option<
    IsoBoxHeader,
>)
    requires
        region.cursor <= region.end,
    ensures
        result == boundedHeader(region, boxType, size as nat, headerBytes as nat),
{
    if size < headerBytes || size > region.end - region.cursor {
        None
    } else {
        Some(
            IsoBoxHeader {
                boxType,
                payloadStart: region.cursor + headerBytes,
                boxEnd: region.cursor + size,
            },
        )
    }
}

/// Whether the walk can go on in a region: there is room for a header and for one more box.
pub open spec fn isWalkable(region: IsoRegion, inspectedBoxes: usize) -> bool {
    region.cursor < region.end && region.end - region.cursor >= 8 && inspectedBoxes
        < maximumIsoBoxCount
}

/// The walk goes on in the current region or else in the innermost one that is left.
pub open spec fn resumed(walk: IsoWalk) -> IsoWalk
    decreases walk.regions.len(),
{
    if isWalkable(walk.current, walk.inspectedBoxes) {
        IsoWalk { phase: IsoPhase::BoxHeader, ..walk }
    } else if walk.regions.len() == 0 {
        IsoWalk { phase: IsoPhase::Done, ..walk }
    } else {
        resumed(
            IsoWalk { regions: walk.regions.drop_last(), current: walk.regions.last(), ..walk },
        )
    }
}

/// The walk leaves the current region, whose next box is damaged or missing.
pub open spec fn abandoned(walk: IsoWalk) -> IsoWalk {
    if walk.regions.len() == 0 {
        IsoWalk { phase: IsoPhase::Done, ..walk }
    } else {
        resumed(
            IsoWalk { regions: walk.regions.drop_last(), current: walk.regions.last(), ..walk },
        )
    }
}

/// Whether a box is one of the containers on the way to the handlers.
pub open spec fn isContainer(boxType: u32) -> bool {
    boxType == moovCode || boxType == trakCode || boxType == mdiaCode
}

/// The walk after a box: into it where it is a container, else past it.
pub open spec fn afterBox(walk: IsoWalk, header: IsoBoxHeader) -> IsoWalk {
    let here = walk.current;
    if isContainer(header.boxType) && here.depth < maximumIsoBoxDepth && header.payloadStart
        < header.boxEnd {
        let inner = IsoRegion {
            cursor: header.payloadStart,
            end: header.boxEnd,
            depth: (here.depth + 1) as usize,
            insideMedia: here.insideMedia || header.boxType == mdiaCode,
        };
        let regions = if header.boxEnd < here.end {
            walk.regions.push(IsoRegion { cursor: header.boxEnd, ..here })
        } else {
            walk.regions
        };
        resumed(IsoWalk { regions, current: inner, ..walk })
    } else {
        resumed(IsoWalk { current: IsoRegion { cursor: header.boxEnd, ..here }, ..walk })
    }
}

/// The walk after the header of the box at the cursor.
pub open spec fn afterHeader(walk: IsoWalk, header: IsoBoxHeader, first: bool) -> IsoWalk {
    if first {
        let isIso = header.boxType == ftypCode || header.boxType == stypCode || header.boxType
            == moovCode;
        let found = IsoWalk {
            tracks: IsoTrackKinds { isIsoBmff: isIso, ..walk.tracks },
            ..walk
        };
        if isIso {
            resumed(found)
        } else {
            IsoWalk { phase: IsoPhase::Done, ..found }
        }
    } else {
        let counted = IsoWalk { inspectedBoxes: (walk.inspectedBoxes + 1) as usize, ..walk };
        if walk.current.insideMedia && header.boxType == hdlrCode {
            IsoWalk { phase: IsoPhase::Handler(header), ..counted }
        } else {
            afterBox(counted, header)
        }
    }
}

/// The walk where the header of the box at the cursor is damaged or missing.
pub open spec fn withoutHeader(walk: IsoWalk, first: bool) -> IsoWalk {
    if first {
        IsoWalk { phase: IsoPhase::Done, ..walk }
    } else {
        abandoned(walk)
    }
}

/// The bytes that the walk waits for: their offset in the virtual body and their number.
pub open spec fn wantedRead(walk: IsoWalk) -> Option<(u64, u64)> {
    match walk.phase {
        IsoPhase::FirstBox => Some((walk.current.cursor, 8)),
        IsoPhase::BoxHeader => Some((walk.current.cursor, 8)),
        IsoPhase::ExtendedSize { .. } => Some(((walk.current.cursor + 8) as u64, 8)),
        IsoPhase::Handler(header) => Some((header.payloadStart, 12)),
        IsoPhase::Done => None,
    }
}

/// The walk after the eight bytes of a box header.
pub open spec fn afterBasicHeader(walk: IsoWalk, bytes: Seq<u8>, first: bool) -> IsoWalk {
    let here = walk.current;
    let size = bigEndian(bytes.subrange(0, 4));
    let boxType = bigEndian(bytes.subrange(4, 8)) as u32;
    if size == 1 {
        if here.end - here.cursor < 16 {
            withoutHeader(walk, first)
        } else {
            IsoWalk { phase: IsoPhase::ExtendedSize { boxType, first }, ..walk }
        }
    } else {
        let header = if size == 0 {
            boundedHeader(here, boxType, (here.end - here.cursor) as nat, 8)
        } else {
            boundedHeader(here, boxType, size, 8)
        };
        match header {
            Some(found) => afterHeader(walk, found, first),
            None => withoutHeader(walk, first),
        }
    }
}

/// The tracks known after a handler type.
pub open spec fn withHandler(tracks: IsoTrackKinds, bytes: Seq<u8>) -> IsoTrackKinds {
    let handler = bigEndian(bytes.subrange(8, 12));
    IsoTrackKinds {
        hasAudio: tracks.hasAudio || handler == sounCode,
        hasVideo: tracks.hasVideo || handler == videCode,
        ..tracks
    }
}

/// The walk after the bytes it waited for; `None` stands for bytes that cannot be read.
pub open spec fn advanced(walk: IsoWalk, bytes: Option<Seq<u8>>) -> IsoWalk {
    match walk.phase {
        IsoPhase::FirstBox => match bytes {
            Some(header) => afterBasicHeader(walk, header, true),
            None => withoutHeader(walk, true),
        },
        IsoPhase::BoxHeader => match bytes {
            Some(header) => afterBasicHeader(walk, header, false),
            None => withoutHeader(walk, false),
        },
        IsoPhase::ExtendedSize { boxType, first } => match bytes {
            Some(size) => match boundedHeader(walk.current, boxType, bigEndian(size), 16) {
                Some(found) => afterHeader(walk, found, first),
                None => withoutHeader(walk, first),
            },
            None => withoutHeader(walk, first),
        },
        IsoPhase::Handler(header) => match bytes {
            Some(payload) => afterBox(
                IsoWalk { tracks: withHandler(walk.tracks, payload), ..walk },
                header,
            ),
            None => afterBox(walk, header),
        },
        IsoPhase::Done => walk,
    }
}

/// Whether a region lies within the body and within the depth limit.
pub open spec fn regionValid(region: IsoRegion, total: nat) -> bool {
    region.cursor <= region.end <= total && region.depth <= maximumIsoBoxDepth
}

/// What every reachable walk keeps: all regions and every header lie within the body, and no limit
/// is exceeded.
pub open spec fn walkValid(walk: IsoWalk, total: nat) -> bool {
    &&& regionValid(walk.current, total)
    &&& forall|i: int| 0 <= i < walk.regions.len() ==> regionValid(#[trigger] walk.regions[i], total)
    &&& walk.inspectedBoxes <= maximumIsoBoxCount
    &&& walk.regions.len() <= walk.inspectedBoxes
    &&& match walk.phase {
        IsoPhase::FirstBox => walk.current.end - walk.current.cursor >= 8 && walk.regions.len()
            == 0,
        IsoPhase::BoxHeader => isWalkable(walk.current, walk.inspectedBoxes),
        IsoPhase::ExtendedSize { first, .. } => {
            &&& walk.current.end - walk.current.cursor >= 16
            &&& first ==> walk.regions.len() == 0
            &&& !first ==> walk.inspectedBoxes < maximumIsoBoxCount
        },
        IsoPhase::Handler(header) => {
            &&& walk.current.cursor < header.payloadStart <= header.boxEnd <= walk.current.end
            &&& walk.regions.len() < walk.inspectedBoxes
        },
        IsoPhase::Done => true,
    }
}

/// Resuming keeps a walk valid, whatever phase it was in.
proof fn lemmaResumedValid(walk: IsoWalk, total: nat)
    requires
        regionValid(walk.current, total),
        forall|i: int|
            0 <= i < walk.regions.len() ==> regionValid(#[trigger] walk.regions[i], total),
        walk.inspectedBoxes <= maximumIsoBoxCount,
        walk.regions.len() <= walk.inspectedBoxes,
    ensures
        walkValid(resumed(walk), total),
        resumed(walk).inspectedBoxes == walk.inspectedBoxes,
        resumed(walk).tracks == walk.tracks,
        resumed(walk).regions.len() <= walk.regions.len(),
        resumed(walk).phase is BoxHeader || resumed(walk).phase is Done,
    decreases walk.regions.len(),
{
    if !isWalkable(walk.current, walk.inspectedBoxes) && walk.regions.len() > 0 {
        let next = IsoWalk {
            regions: walk.regions.drop_last(),
            current: walk.regions.last(),
            ..walk
        };
        assert(walk.regions.last() == walk.regions[walk.regions.len() - 1]);
        lemmaResumedValid(next, total);
    }
}

/// How many steps a walk may still take, weighted so that every step lowers it.
pub open spec fn walkMeasure(walk: IsoWalk) -> int {
    (maximumIsoBoxCount - walk.inspectedBoxes) * 10 + walk.regions.len() * 4 + match walk.phase {
        IsoPhase::FirstBox => 4int,
        IsoPhase::BoxHeader => 2,
        IsoPhase::ExtendedSize { first, .. } => if first { 3 } else { 1 },
        IsoPhase::Handler(_) => 7,
        IsoPhase::Done => 0,
    }
}

proof fn lemmaResumedMeasure(walk: IsoWalk)
    ensures
        walkMeasure(resumed(walk)) <= (maximumIsoBoxCount - walk.inspectedBoxes) * 10
            + walk.regions.len() * 4 + 2,
    decreases walk.regions.len(),
{
    if !isWalkable(walk.current, walk.inspectedBoxes) && walk.regions.len() > 0 {
        lemmaResumedMeasure(
            IsoWalk { regions: walk.regions.drop_last(), current: walk.regions.last(), ..walk },
        );
    }
}

proof fn lemmaAfterBox(walk: IsoWalk, total: nat, header: IsoBoxHeader)
    requires
        regionValid(walk.current, total),
        forall|i: int|
            0 <= i < walk.regions.len() ==> regionValid(#[trigger] walk.regions[i], total),
        walk.inspectedBoxes <= maximumIsoBoxCount,
        walk.regions.len() < walk.inspectedBoxes,
        walk.current.cursor < header.payloadStart <= header.boxEnd <= walk.current.end,
    ensures
        walkValid(afterBox(walk, header), total),
        afterBox(walk, header).tracks == walk.tracks,
        walkMeasure(afterBox(walk, header)) <= (maximumIsoBoxCount - walk.inspectedBoxes) * 10
            + walk.regions.len() * 4 + 6,
{
    let here = walk.current;
    if isContainer(header.boxType) && here.depth < maximumIsoBoxDepth && header.payloadStart
        < header.boxEnd {
        let inner = IsoRegion {
            cursor: header.payloadStart,
            end: header.boxEnd,
            depth: (here.depth + 1) as usize,
            insideMedia: here.insideMedia || header.boxType == mdiaCode,
        };
        let regions = if header.boxEnd < here.end {
            walk.regions.push(IsoRegion { cursor: header.boxEnd, ..here })
        } else {
            walk.regions
        };
        let next = IsoWalk { regions, current: inner, ..walk };
        lemmaResumedValid(next, total);
        lemmaResumedMeasure(next);
    } else {
        let next = IsoWalk { current: IsoRegion { cursor: header.boxEnd, ..here }, ..walk };
        lemmaResumedValid(next, total);
        lemmaResumedMeasure(next);
    }
}

proof fn lemmaWithoutHeader(walk: IsoWalk, total: nat, first: bool)
    requires
        walkValid(walk, total),
        walk.phase is FirstBox || walk.phase is BoxHeader || walk.phase is ExtendedSize,
        first <==> walk.phase is FirstBox || walk.phase == (IsoPhase::ExtendedSize {
            boxType: walk.phase->boxType,
            first: true,
        }),
    ensures
        walkValid(withoutHeader(walk, first), total),
        walkMeasure(withoutHeader(walk, first)) < walkMeasure(walk),
        withoutHeader(walk, first).tracks == walk.tracks,
{
    if !first && walk.regions.len() > 0 {
        let next = IsoWalk {
            regions: walk.regions.drop_last(),
            current: walk.regions.last(),
            ..walk
        };
        assert(walk.regions.last() == walk.regions[walk.regions.len() - 1]);
        lemmaResumedValid(next, total);
        lemmaResumedMeasure(next);
    }
}

proof fn lemmaAfterHeader(walk: IsoWalk, total: nat, header: IsoBoxHeader, first: bool)
    requires
        walkValid(walk, total),
        walk.phase is FirstBox || walk.phase is BoxHeader || walk.phase is ExtendedSize,
        first <==> walk.phase is FirstBox || walk.phase == (IsoPhase::ExtendedSize {
            boxType: walk.phase->boxType,
            first: true,
        }),
        walk.current.cursor < header.payloadStart <= header.boxEnd <= walk.current.end,
    ensures
        walkValid(afterHeader(walk, header, first), total),
        walkMeasure(afterHeader(walk, header, first)) < walkMeasure(walk),
        afterHeader(walk, header, first).tracks.hasAudio == walk.tracks.hasAudio,
        afterHeader(walk, header, first).tracks.hasVideo == walk.tracks.hasVideo,
{
    if first {
        let isIso = header.boxType == ftypCode || header.boxType == stypCode || header.boxType
            == moovCode;
        let found = IsoWalk { tracks: IsoTrackKinds { isIsoBmff: isIso, ..walk.tracks }, ..walk };
        lemmaResumedValid(found, total);
        lemmaResumedMeasure(found);
    } else {
        let counted = IsoWalk { inspectedBoxes: (walk.inspectedBoxes + 1) as usize, ..walk };
        if !(walk.current.insideMedia && header.boxType == hdlrCode) {
            lemmaAfterBox(counted, total, header);
        }
    }
}

/// Every step of a walk keeps all reads of box headers within the body and all limits in force,
/// brings the end strictly nearer, and never takes back what was found.
pub proof fn lawIsoWalkAdvances(walk: IsoWalk, total: nat, bytes: Option<Seq<u8>>)
    requires
        walkValid(walk, total),
        total <= u64::MAX,
        bytes matches Some(read) ==> wantedRead(walk) matches Some(wanted) && read.len()
            == wanted.1,
    ensures
        walkValid(advanced(walk, bytes), total),
        walk.phase !is Done ==> walkMeasure(advanced(walk, bytes)) < walkMeasure(walk),
        walk.tracks.hasAudio ==> advanced(walk, bytes).tracks.hasAudio,
        walk.tracks.hasVideo ==> advanced(walk, bytes).tracks.hasVideo,
{
    let here = walk.current;
    match walk.phase {
        IsoPhase::FirstBox => {
            lemmaBasicHeader(walk, total, bytes, true);
        },
        IsoPhase::BoxHeader => {
            lemmaBasicHeader(walk, total, bytes, false);
        },
        IsoPhase::ExtendedSize { boxType, first } => {
            match bytes {
                Some(size) => match boundedHeader(here, boxType, bigEndian(size), 16) {
                    Some(found) => {
                        lemmaAfterHeader(walk, total, found, first);
                    },
                    None => {
                        lemmaWithoutHeader(walk, total, first);
                    },
                },
                None => {
                    lemmaWithoutHeader(walk, total, first);
                },
            }
        },
        IsoPhase::Handler(header) => {
            match bytes {
                Some(payload) => {
                    lemmaAfterBox(
                        IsoWalk { tracks: withHandler(walk.tracks, payload), ..walk },
                        total,
                        header,
                    );
                },
                None => {
                    lemmaAfterBox(walk, total, header);
                },
            }
        },
        IsoPhase::Done => {},
    }
}

proof fn lemmaBasicHeader(walk: IsoWalk, total: nat, bytes: Option<Seq<u8>>, first: bool)
    requires
        walkValid(walk, total),
        total <= u64::MAX,
        walk.phase is FirstBox || walk.phase is BoxHeader,
        first <==> walk.phase is FirstBox,
        bytes matches Some(read) ==> read.len() == 8,
    ensures
        walkValid(advanced(walk, bytes), total),
        walkMeasure(advanced(walk, bytes)) < walkMeasure(walk),
        advanced(walk, bytes).tracks.hasAudio == walk.tracks.hasAudio,
        advanced(walk, bytes).tracks.hasVideo == walk.tracks.hasVideo,
{
    let here = walk.current;
    match bytes {
        None => {
            lemmaWithoutHeader(walk, total, first);
        },
        Some(read) => {
            let size = bigEndian(read.subrange(0, 4));
            let boxType = bigEndian(read.subrange(4, 8)) as u32;
            if size == 1 {
                if here.end - here.cursor < 16 {
                    lemmaWithoutHeader(walk, total, first);
                }
            } else {
                let header = if size == 0 {
                    boundedHeader(here, boxType, (here.end - here.cursor) as nat, 8)
                } else {
                    boundedHeader(here, boxType, size, 8)
                };
                match header {
                    Some(found) => {
                        lemmaAfterHeader(walk, total, found, first);
                    },
                    None => {
                        lemmaWithoutHeader(walk, total, first);
                    },
                }
            }
        },
    }
}

impl IsoInspector {
    /// Whether the walk stays within its body and its limits.
    pub open spec fn wf(&self) -> bool {
        walkValid(self@, self.total as nat)
    }
}

/// The media type that the tracks of a file call for.
pub open spec fn mediaType(declared: Seq<char>, tracks: IsoTrackKinds) -> Seq<char> {
    if !tracks.isIsoBmff {
        declared
    } else if tracks.hasVideo {
        "video/mp4"@
    } else if tracks.hasAudio {
        "audio/mp4"@
    } else {
        "application/mp4"@
    }
}

/// Corrects a declared media type by what the container shows; a file without a known track gets
/// the neutral type.
pub fn effectiveContentType(declared: &str, tracks: IsoTrackKinds) -> (result: String)
    ensures
        result@ == mediaType(declared@, tracks),
{
    if !tracks.isIsoBmff {
        copyText(declared)
    } else if tracks.hasVideo {
        copyText("video/mp4")
    } else if tracks.hasAudio {
        copyText("audio/mp4")
    } else {
        copyText("application/mp4")
    }
}

impl IsoInspector {
    /// Moves on to the current region or else to the innermost one that is left.
    fn resume(&mut self)
        ensures
            final(self).total == old(self).total,
            final(self)@ == resumed(old(self)@),
    {
        while !(self.current.cursor < self.current.end && self.current.end - self.current.cursor
            >= 8 && self.inspectedBoxes < maximumIsoBoxCount) && self.regions.len() > 0
            invariant
                self.total == old(self).total,
                resumed(self@) == resumed(old(self)@),
            decreases self.regions.len(),
        {
            let ghost before = self@;
            match self.regions.pop() {
                Some(region) => {
                    self.current = region;
                },
                None => {},
            }
            assert(self@.regions == before.regions.drop_last());
        }
        if self.current.cursor < self.current.end && self.current.end - self.current.cursor >= 8
            && self.inspectedBoxes < maximumIsoBoxCount {
            self.phase = IsoPhase::BoxHeader;
        } else {
            self.phase = IsoPhase::Done;
        }
    }

    fn abandon(&mut self)
        ensures
            final(self).total == old(self).total,
            final(self)@ == abandoned(old(self)@),
    {
        let ghost before = self@;
        match self.regions.pop() {
            Some(region) => {
                self.current = region;
                assert(self@.regions == before.regions.drop_last());
                self.resume();
            },
            None => {
                self.phase = IsoPhase::Done;
                assert(self@.regions == before.regions);
            },
        }
    }

    fn leaveHeader(&mut self, first: bool)
        ensures
            final(self).total == old(self).total,
            final(self)@ == withoutHeader(old(self)@, first),
    {
        if first {
            self.phase = IsoPhase::Done;
        } else {
            self.abandon();
        }
    }

    fn passBox(&mut self, header: IsoBoxHeader)
        ensures
            final(self).total == old(self).total,
            final(self)@ == afterBox(old(self)@, header),
    {
        let here = self.current;
        let container = header.boxType == moovCode || header.boxType == trakCode || header.boxType
            == mdiaCode;
        if container && here.depth < maximumIsoBoxDepth && header.payloadStart < header.boxEnd {
            if header.boxEnd < here.end {
                self.regions.push(
                    IsoRegion {
                        cursor: header.boxEnd,
                        end: here.end,
                        depth: here.depth,
                        insideMedia: here.insideMedia,
                    },
                );
            }
            self.current = IsoRegion {
                cursor: header.payloadStart,
                end: header.boxEnd,
                depth: here.depth + 1,
                insideMedia: here.insideMedia || header.boxType == mdiaCode,
            };
        } else {
            self.current = IsoRegion {
                cursor: header.boxEnd,
                end: here.end,
                depth: here.depth,
                insideMedia: here.insideMedia,
            };
        }
        self.resume();
    }

    fn acceptHeader(&mut self, header: IsoBoxHeader, first: bool)
        requires
            !first ==> old(self).inspectedBoxes < maximumIsoBoxCount,
        ensures
            final(self).total == old(self).total,
            final(self)@ == afterHeader(old(self)@, header, first),
    {
        if first {
            let isIso = header.boxType == ftypCode || header.boxType == stypCode || header.boxType
                == moovCode;
            self.tracks = IsoTrackKinds {
                isIsoBmff: isIso,
                hasAudio: self.tracks.hasAudio,
                hasVideo: self.tracks.hasVideo,
            };
            if isIso {
                self.resume();
            } else {
                self.phase = IsoPhase::Done;
            }
        } else {
            self.inspectedBoxes = self.inspectedBoxes + 1;
            if self.current.insideMedia && header.boxType == hdlrCode {
                self.phase = IsoPhase::Handler(header);
            } else {
                self.passBox(header);
            }
        }
    }

    fn acceptBasicHeader(&mut self, bytes: &Vec<u8>, first: bool)
        requires
            bytes@.len() == 8,
            old(self).current.cursor <= old(self).current.end,
            !first ==> old(self).inspectedBoxes < maximumIsoBoxCount,
        ensures
            final(self).total == old(self).total,
            final(self)@ == afterBasicHeader(old(self)@, bytes@, first),
    {
        let here = self.current;
        let size = readU32(bytes, 0);
        let boxType = readU32(bytes, 4);
        if size == 1 {
            if here.end - here.cursor < 16 {
                self.leaveHeader(first);
            } else {
                self.phase = IsoPhase::ExtendedSize { boxType, first };
            }
            return ;
        }
        let header = if size == 0 {
            boundHeader(here, boxType, here.end - here.cursor, 8)
        } else {
            boundHeader(here, boxType, size as u64, 8)
        };
        match header {
            Some(found) => self.acceptHeader(found, first),
            None => self.leaveHeader(first),
        }
    }

    /// A walk over a body of the given length.
    pub fn new(total: u64) -> (result: IsoInspector)
        ensures
            result.wf(),
            result.total == total,
            result.tracks == (IsoTrackKinds { isIsoBmff: false, hasAudio: false, hasVideo: false }),
            result.current == (IsoRegion { cursor: 0, end: total, depth: 0, insideMedia: false }),
            result.regions@.len() == 0,
            result.inspectedBoxes == 0,
            result.phase == if total < 8 { IsoPhase::Done } else { IsoPhase::FirstBox },
    {
        IsoInspector {
            total,
            regions: Vec::new(),
            current: IsoRegion { cursor: 0, end: total, depth: 0, insideMedia: false },
            inspectedBoxes: 0,
            tracks: IsoTrackKinds { isIsoBmff: false, hasAudio: false, hasVideo: false },
            phase: if total < 8 {
                IsoPhase::Done
            } else {
                IsoPhase::FirstBox
            },
        }
    }

    /// The bytes that the walk waits for; `None` once it is over.
    pub fn request(&self) -> (result: Option<(u64, u64)>)
        requires
            self.wf(),
        ensures
            result == wantedRead(self@),
            result is None <==> self.phase is Done,
    {
        match self.phase {
            IsoPhase::FirstBox => Some((self.current.cursor, 8)),
            IsoPhase::BoxHeader => Some((self.current.cursor, 8)),
            IsoPhase::ExtendedSize { .. } => Some((self.current.cursor + 8, 8)),
            IsoPhase::Handler(header) => Some((header.payloadStart, 12)),
            IsoPhase::Done => None,
        }
    }

    /// Takes the bytes that the walk waited for and moves on. Every step that is not the last one
    /// brings the end nearer.
    pub fn supply(&mut self, bytes: Option<Vec<u8>>)
        requires
            old(self).wf(),
            bytes matches Some(read) ==> wantedRead(old(self)@) matches Some(wanted) && read@.len()
                == wanted.1,
        ensures
            final(self)@ == advanced(
                old(self)@,
                bytesView(bytes),
            ),
            final(self).wf(),
            final(self).total == old(self).total,
            old(self).phase !is Done ==> walkMeasure(final(self)@) < walkMeasure(old(self)@),
    {
        proof {
            lawIsoWalkAdvances(
                self@,
                self.total as nat,
                bytesView(bytes),
            );
        }
        match self.phase {
            IsoPhase::FirstBox => match &bytes {
                Some(read) => self.acceptBasicHeader(read, true),
                None => self.leaveHeader(true),
            },
            IsoPhase::BoxHeader => match &bytes {
                Some(read) => self.acceptBasicHeader(read, false),
                None => self.leaveHeader(false),
            },
            IsoPhase::ExtendedSize { boxType, first } => match &bytes {
                Some(read) => {
                    let size = readU64(read);
                    match boundHeader(self.current, boxType, size, 16) {
                        Some(found) => self.acceptHeader(found, first),
                        None => self.leaveHeader(first),
                    }
                },
                None => self.leaveHeader(first),
            },
            IsoPhase::Handler(header) => {
                match &bytes {
                    Some(read) => {
                        let handler = readU32(read, 8);
                        self.tracks = IsoTrackKinds {
                            isIsoBmff: self.tracks.isIsoBmff,
                            hasAudio: self.tracks.hasAudio || handler == sounCode,
                            hasVideo: self.tracks.hasVideo || handler == videCode,
                        };
                    },
                    None => {},
                }
                self.passBox(header);
            },
            IsoPhase::Done => {},
        }
    }
}

/// The media type follows what the container holds: video before sound, sound before neither; what is no such
/// container keeps the type that it was declared as.
pub proof fn lawMediaTypeFollowsTracks(declared: Seq<char>, tracks: IsoTrackKinds)
    ensures
        !tracks.isIsoBmff ==> mediaType(declared, tracks) == declared,
        tracks.isIsoBmff && tracks.hasVideo ==> mediaType(declared, tracks) == "video/mp4"@,
        tracks.isIsoBmff && !tracks.hasVideo && tracks.hasAudio ==> mediaType(declared, tracks)
            == "audio/mp4"@,
        tracks.isIsoBmff && !tracks.hasVideo && !tracks.hasAudio ==> mediaType(declared, tracks)
            == "application/mp4"@,
{
}

/// Numbers are read with the most significant byte first.
pub proof fn lawNumbersAreBigEndian(bytes: Seq<u8>, byte: u8)
    ensures
        bigEndian(Seq::empty()) == 0,
        bigEndian(bytes.push(byte)) == bigEndian(bytes) * 256 + byte,
        bytes.len() == 4 ==> bigEndian(bytes) == ((bytes[0] * 256 + bytes[1]) * 256 + bytes[2])
            * 256 + bytes[3],
{
    assert(bytes.push(byte).drop_last() == bytes);
    if bytes.len() == 4 {
        let three = bytes.drop_last();
        let two = three.drop_last();
        let one = two.drop_last();
        assert(one.drop_last() == Seq::<u8>::empty());
        assert(bigEndian(one.drop_last()) == 0);
        assert(bigEndian(one) == bytes[0]);
        assert(bigEndian(two) == bytes[0] * 256 + bytes[1]);
        assert(bigEndian(three) == (bytes[0] * 256 + bytes[1]) * 256 + bytes[2]);
    }
}

/// A handler of a media box names its track: `vide` a video, `soun` a sound, and anything else neither. What
/// was found before stays found.
pub proof fn lawHandlerNamesTheTrack(tracks: IsoTrackKinds, bytes: Seq<u8>)
    requires
        bytes.len() == 12,
    ensures
        ({
            let next = withHandler(tracks, bytes);
            let name = bytes.subrange(8, 12);
            &&& next.isIsoBmff == tracks.isIsoBmff
            &&& next.hasVideo <==> tracks.hasVideo || name == seq![0x76u8, 0x69u8, 0x64u8, 0x65u8]
            &&& next.hasAudio <==> tracks.hasAudio || name == seq![0x73u8, 0x6Fu8, 0x75u8, 0x6Eu8]
        }),
{
    let name = bytes.subrange(8, 12);
    lawNumbersAreBigEndian(name, 0);
    if name[0] == 0x76 && name[1] == 0x69 && name[2] == 0x64 && name[3] == 0x65 {
        assert(name =~= seq![0x76u8, 0x69u8, 0x64u8, 0x65u8]);
    }
    if name[0] == 0x73 && name[1] == 0x6F && name[2] == 0x75 && name[3] == 0x6E {
        assert(name =~= seq![0x73u8, 0x6Fu8, 0x75u8, 0x6Eu8]);
    }
}

/// The first box tells whether this is such a container: one of three types does, any other ends the search
/// with nothing found. An unreadable first box ends it too.
pub proof fn lawFirstBoxDecides(walk: IsoWalk, bytes: Seq<u8>)
    requires
        walk.phase is FirstBox,
        bytes.len() == 8,
        bigEndian(bytes.subrange(0, 4)) >= 8,
        walk.current.cursor + bigEndian(bytes.subrange(0, 4)) <= walk.current.end,
        isWalkable(walk.current, walk.inspectedBoxes),
    ensures
        ({
            let next = advanced(walk, Some(bytes));
            let name = bytes.subrange(4, 8);
            let known = name == seq![0x66u8, 0x74u8, 0x79u8, 0x70u8] || name == seq![
                0x73u8,
                0x74u8,
                0x79u8,
                0x70u8,
            ] || name == seq![0x6Du8, 0x6Fu8, 0x6Fu8, 0x76u8];
            &&& next.tracks.isIsoBmff == known
            &&& next.phase is BoxHeader == known
            &&& next.phase is Done == !known
            &&& next.current == walk.current
        }),
        advanced(walk, None).phase is Done,
        advanced(walk, None).tracks == walk.tracks,
{
    let name = bytes.subrange(4, 8);
    lawNumbersAreBigEndian(name, 0);
    lawNumbersAreBigEndian(bytes.subrange(0, 4), 0);
    if name[0] == 0x66 && name[1] == 0x74 && name[2] == 0x79 && name[3] == 0x70 {
        assert(name =~= seq![0x66u8, 0x74u8, 0x79u8, 0x70u8]);
    }
    if name[0] == 0x73 && name[1] == 0x74 && name[2] == 0x79 && name[3] == 0x70 {
        assert(name =~= seq![0x73u8, 0x74u8, 0x79u8, 0x70u8]);
    }
    if name[0] == 0x6D && name[1] == 0x6F && name[2] == 0x6F && name[3] == 0x76 {
        assert(name =~= seq![0x6Du8, 0x6Fu8, 0x6Fu8, 0x76u8]);
    }
}

/// Boxes are walked in their order: the walk enters a movie, a track and a media box, reads the handler of a
/// media box, and steps over every other box to the one behind it.
pub proof fn lawBoxesAreWalked(walk: IsoWalk, header: IsoBoxHeader)
    requires
        walk.current.cursor < header.payloadStart <= header.boxEnd <= walk.current.end,
        walk.inspectedBoxes < 4_000,
        walk.current.depth < 8,
    ensures
        ({
            let next = afterHeader(walk, header, false);
            let container = header.boxType == 0x6D6F_6F76 || header.boxType == 0x7472_616B
                || header.boxType == 0x6D64_6961;
            let handler = walk.current.insideMedia && header.boxType == 0x6864_6C72;
            &&& handler <==> next.phase == IsoPhase::Handler(header)
            &&& next.inspectedBoxes == walk.inspectedBoxes + 1
            &&& next.tracks == walk.tracks
            &&& container && header.boxEnd - header.payloadStart >= 8 ==> {
                &&& next.phase is BoxHeader
                &&& next.current.cursor == header.payloadStart
                &&& next.current.end == header.boxEnd
                &&& next.current.depth == walk.current.depth + 1
                &&& next.current.insideMedia == (walk.current.insideMedia || header.boxType
                    == 0x6D64_6961)
                &&& header.boxEnd < walk.current.end ==> next.regions == walk.regions.push(
                    IsoRegion { cursor: header.boxEnd, ..walk.current },
                )
            }
            &&& !container && !handler && walk.current.end - header.boxEnd >= 8 ==> {
                &&& next.phase is BoxHeader
                &&& next.current == (IsoRegion { cursor: header.boxEnd, ..walk.current })
                &&& next.regions == walk.regions
            }
        }),
{
    let here = walk.current;
    let counted = IsoWalk { inspectedBoxes: (walk.inspectedBoxes + 1) as usize, ..walk };
    lemmaResumedKeeps(
        IsoWalk { current: IsoRegion { cursor: header.boxEnd, ..here }, ..counted },
    );
    let inner = IsoRegion {
        cursor: header.payloadStart,
        end: header.boxEnd,
        depth: (here.depth + 1) as usize,
        insideMedia: here.insideMedia || header.boxType == mdiaCode,
    };
    lemmaResumedKeeps(IsoWalk { current: inner, ..counted });
    lemmaResumedKeeps(
        IsoWalk {
            regions: walk.regions.push(IsoRegion { cursor: header.boxEnd, ..here }),
            current: inner,
            ..counted
        },
    );
}

proof fn lemmaResumedKeeps(walk: IsoWalk)
    ensures
        resumed(walk).inspectedBoxes == walk.inspectedBoxes,
        resumed(walk).tracks == walk.tracks,
        resumed(walk).phase is BoxHeader || resumed(walk).phase is Done,
    decreases walk.regions.len(),
{
    if !isWalkable(walk.current, walk.inspectedBoxes) && walk.regions.len() > 0 {
        lemmaResumedKeeps(
            IsoWalk { regions: walk.regions.drop_last(), current: walk.regions.last(), ..walk },
        );
    }
}

/// A box reaches as far as its size says, to the end of what holds it where it says nothing, and never beyond;
/// a large size stands in the eight bytes behind the type.
pub proof fn lawBoxReachesAsItSays(walk: IsoWalk, bytes: Seq<u8>, first: bool)
    requires
        bytes.len() == 8,
        walk.current.cursor <= walk.current.end,
        walk.current.end - walk.current.cursor >= 8,
    ensures
        ({
            let size = bigEndian(bytes.subrange(0, 4));
            let boxType = bigEndian(bytes.subrange(4, 8)) as u32;
            let here = walk.current;
            let next = afterBasicHeader(walk, bytes, first);
            &&& size == 1 && here.end - here.cursor >= 16 ==> next.phase
                == (IsoPhase::ExtendedSize { boxType, first })
            &&& size == 0 ==> next == afterHeader(
                walk,
                IsoBoxHeader {
                    boxType,
                    payloadStart: (here.cursor + 8) as u64,
                    boxEnd: here.end,
                },
                first,
            )
            &&& size >= 8 && here.cursor + size <= here.end ==> next == afterHeader(
                walk,
                IsoBoxHeader {
                    boxType,
                    payloadStart: (here.cursor + 8) as u64,
                    boxEnd: (here.cursor + size) as u64,
                },
                first,
            )
            &&& size > 1 && (size < 8 || here.cursor + size > here.end) ==> next == withoutHeader(
                walk,
                first,
            )
        }),
{
}

} // verus!
