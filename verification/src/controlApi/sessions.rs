//! Proxy sessions across service cycles.

use crate::controlApi::applicationBodyDecoder::contentCoding::copyBytes;
use crate::controlApi::headerFields::valueBytes;
use crate::controlApi::metrics::{combineMetrics, combined, noMetrics, ServiceMetrics};
use crate::ordering::{
    isLargestFirst, largestFirst, lawLargestFirst, orderLargestFirst, positions,
};
use crate::text::copyText;
use vstd::prelude::*;

verus! {

/// Whether a session has ended, and how.
#[derive(Clone, Copy, Debug, PartialEq, Eq, Structural)]
pub enum SessionState {
    Open,
    Closed,
    Failed,
}

/// A proxy session.
#[derive(Debug)]
pub struct SessionSnapshot {
    pub sessionId: String,
    pub state: SessionState,
    pub createdAtMilliseconds: u64,
    pub updatedAtMilliseconds: u64,
    pub closedAtMilliseconds: u64,
    pub errorMessage: String,
    pub capturedBytesUp: Vec<u8>,
    pub capturedBytesDown: Vec<u8>,
    pub capturedPackets: Vec<Vec<u8>>,
}

/// The mathematical value of a session.
pub struct SessionView {
    pub sessionId: Seq<char>,
    pub state: SessionState,
    pub createdAtMilliseconds: u64,
    pub updatedAtMilliseconds: u64,
    pub closedAtMilliseconds: u64,
    pub errorMessage: Seq<char>,
    pub capturedBytesUp: Seq<u8>,
    pub capturedBytesDown: Seq<u8>,
    pub capturedPackets: Seq<Seq<u8>>,
}

impl View for SessionSnapshot {
    type V = SessionView;

    open spec fn view(&self) -> SessionView {
        SessionView {
            sessionId: self.sessionId@,
            state: self.state,
            createdAtMilliseconds: self.createdAtMilliseconds,
            updatedAtMilliseconds: self.updatedAtMilliseconds,
            closedAtMilliseconds: self.closedAtMilliseconds,
            errorMessage: self.errorMessage@,
            capturedBytesUp: self.capturedBytesUp@,
            capturedBytesDown: self.capturedBytesDown@,
            capturedPackets: valueBytes(self.capturedPackets@),
        }
    }
}

impl SessionSnapshot {
    /// An independent copy.
    pub fn copied(&self) -> (result: SessionSnapshot)
        ensures
            result@ == self@,
    {
        let mut capturedPackets: Vec<Vec<u8>> = Vec::new();
        let ghost all = valueBytes(self.capturedPackets@);
        let mut i: usize = 0;
        while i < self.capturedPackets.len()
            invariant
                i <= self.capturedPackets.len(),
                all == valueBytes(self.capturedPackets@),
                valueBytes(capturedPackets@) == all.take(i as int),
            decreases self.capturedPackets.len() - i,
        {
            let ghost before = valueBytes(capturedPackets@);
            capturedPackets.push(copyBytes(&self.capturedPackets[i]));
            assert(valueBytes(capturedPackets@) == before.push(all[i as int]));
            i += 1;
            assert(valueBytes(capturedPackets@) == all.take(i as int));
        }
        assert(all.take(i as int) == all);
        SessionSnapshot {
            sessionId: copyText(self.sessionId.as_str()),
            state: self.state,
            createdAtMilliseconds: self.createdAtMilliseconds,
            updatedAtMilliseconds: self.updatedAtMilliseconds,
            closedAtMilliseconds: self.closedAtMilliseconds,
            errorMessage: copyText(self.errorMessage.as_str()),
            capturedBytesUp: copyBytes(&self.capturedBytesUp),
            capturedBytesDown: copyBytes(&self.capturedBytesDown),
            capturedPackets,
        }
    }
}

/// Whether a session has ended.
pub open spec fn isEnded(session: SessionSnapshot) -> bool {
    session.state == SessionState::Closed || session.state == SessionState::Failed
}

/// The creation times of sessions.
pub open spec fn creationTimes(sessions: Seq<SessionSnapshot>) -> Seq<u64> {
    sessions.map_values(|session: SessionSnapshot| session.createdAtMilliseconds)
}

/// Keeps every open session, and ended ones until the limit is reached.
pub open spec fn retained(
    order: Seq<int>,
    sessions: Seq<SessionSnapshot>,
    room: nat,
) -> Seq<int>
    decreases order.len(),
{
    if order.len() == 0 {
        order
    } else if !isEnded(sessions[order[0]]) {
        seq![order[0]] + retained(order.drop_first(), sessions, room)
    } else if room > 0 {
        seq![order[0]] + retained(order.drop_first(), sessions, (room - 1) as nat)
    } else {
        retained(order.drop_first(), sessions, 0)
    }
}

/// The positions of the sessions that clients see.
pub open spec fn visibleSessions(sessions: Seq<SessionSnapshot>, historyLimit: nat) -> Seq<int> {
    retained(
        largestFirst(creationTimes(sessions), sessions.len() as int),
        sessions,
        historyLimit,
    )
}

fn orderSessions(archived: &Vec<SessionSnapshot>, current: &Vec<SessionSnapshot>) -> (result: Vec<
    usize,
>)
    ensures
        positions(result@) == largestFirst(
            creationTimes(archived@ + current@),
            (archived@ + current@).len() as int,
        ),
        forall|k: int| 0 <= k < result@.len() ==> result@[k] < archived@.len() + current@.len(),
{
    let ghost all = creationTimes(archived@ + current@);
    let mut keys: Vec<u64> = Vec::new();
    let mut i: usize = 0;
    while i < archived.len()
        invariant
            i <= archived.len(),
            all == creationTimes(archived@ + current@),
            keys@ == all.take(i as int),
        decreases archived.len() - i,
    {
        keys.push(archived[i].createdAtMilliseconds);
        i += 1;
        assert(keys@ == all.take(i as int));
    }
    let mut j: usize = 0;
    while j < current.len()
        invariant
            j <= current.len(),
            all == creationTimes(archived@ + current@),
            keys@ == all.take(archived@.len() + j),
        decreases current.len() - j,
    {
        keys.push(current[j].createdAtMilliseconds);
        j += 1;
        assert(keys@ == all.take(archived@.len() + j));
    }
    assert(keys@ == all);
    orderLargestFirst(&keys)
}

fn hasEnded(archived: &Vec<SessionSnapshot>, current: &Vec<SessionSnapshot>, i: usize) -> (result:
    bool)
    requires
        i < archived@.len() + current@.len(),
    ensures
        result == isEnded((archived@ + current@)[i as int]),
{
    let state = if i < archived.len() {
        archived[i].state
    } else {
        current[i - archived.len()].state
    };
    state == SessionState::Closed || state == SessionState::Failed
}

/// Which sessions clients see, newest first, by position in the archived sessions followed by the
/// current ones. Open sessions are never dropped; of the ended ones the newest `historyLimit` stay.
pub fn combineSessions(
    archivedSessions: &Vec<SessionSnapshot>,
    currentSessions: &Vec<SessionSnapshot>,
    historyLimit: usize,
) -> (result: Vec<usize>)
    ensures
        positions(result@) == visibleSessions(
            archivedSessions@ + currentSessions@,
            historyLimit as nat,
        ),
        forall|k: int|
            0 <= k < result@.len() ==> #[trigger] result@[k] < archivedSessions@.len()
                + currentSessions@.len(),
{
    let order = orderSessions(archivedSessions, currentSessions);
    let ghost all = archivedSessions@ + currentSessions@;
    let ghost ordered = positions(order@);
    let mut kept: Vec<usize> = Vec::new();
    let mut room: usize = historyLimit;
    let mut i: usize = 0;
    assert(ordered.skip(0) == ordered);
    assert(positions(kept@) + retained(ordered.skip(0), all, room as nat) == retained(
        ordered,
        all,
        historyLimit as nat,
    ));
    while i < order.len()
        invariant
            i <= order.len(),
            all == archivedSessions@ + currentSessions@,
            ordered == positions(order@),
            forall|k: int|
                0 <= k < order@.len() ==> order@[k] < archivedSessions@.len()
                    + currentSessions@.len(),
            forall|k: int|
                0 <= k < kept@.len() ==> #[trigger] kept@[k] < archivedSessions@.len()
                    + currentSessions@.len(),
            positions(kept@) + retained(ordered.skip(i as int), all, room as nat) == retained(
                ordered,
                all,
                historyLimit as nat,
            ),
        decreases order.len() - i,
    {
        let ghost rest = ordered.skip(i as int);
        let ghost before = positions(kept@);
        assert(rest[0] == order@[i as int]);
        assert(rest.drop_first() == ordered.skip(i + 1));
        let at = order[i];
        if !hasEnded(archivedSessions, currentSessions, at) {
            kept.push(at);
            assert(positions(kept@) == before.push(at as int));
            assert(before + (seq![at as int] + retained(ordered.skip(i + 1), all, room as nat))
                == positions(kept@) + retained(ordered.skip(i + 1), all, room as nat));
        } else if room > 0 {
            kept.push(at);
            room -= 1;
            assert(positions(kept@) == before.push(at as int));
            assert(before + (seq![at as int] + retained(ordered.skip(i + 1), all, room as nat))
                == positions(kept@) + retained(ordered.skip(i + 1), all, room as nat));
        }
        i += 1;
    }
    assert(ordered.skip(i as int).len() == 0);
    assert(positions(kept@) + ordered.skip(i as int) == positions(kept@));
    kept
}

// ---------------------------------------------------------------------------
// Laws
// ---------------------------------------------------------------------------

/// How many of the sessions at these positions have ended.
pub open spec fn endedCount(order: Seq<int>, sessions: Seq<SessionSnapshot>) -> nat
    decreases order.len(),
{
    if order.len() == 0 {
        0
    } else {
        endedCount(order.drop_first(), sessions) + if isEnded(sessions[order[0]]) {
            1nat
        } else {
            0
        }
    }
}

proof fn lemmaRetained(order: Seq<int>, sessions: Seq<SessionSnapshot>, room: nat)
    requires
        isLargestFirst(order, creationTimes(sessions)),
        forall|x: int| #[trigger] order.contains(x) ==> 0 <= x < sessions.len(),
    ensures
        isLargestFirst(retained(order, sessions, room), creationTimes(sessions)),
        endedCount(retained(order, sessions, room), sessions) <= room,
        forall|x: int| #[trigger]
            retained(order, sessions, room).contains(x) ==> order.contains(x),
        forall|x: int| #[trigger]
            order.contains(x) && !isEnded(sessions[x]) ==> retained(
                order,
                sessions,
                room,
            ).contains(x),
        forall|x: int, y: int|
            #![trigger retained(order, sessions, room).contains(x), order.contains(y)]
            retained(order, sessions, room).contains(x) && isEnded(sessions[x]) && order.contains(y)
                && !retained(order, sessions, room).contains(y)
                ==> sessions[x].createdAtMilliseconds >= sessions[y].createdAtMilliseconds,
    decreases order.len(),
{
    let result = retained(order, sessions, room);
    let keys = creationTimes(sessions);
    if order.len() > 0 {
        let head = order[0];
        let rest = order.drop_first();
        assert(isLargestFirst(rest, keys)) by {
            assert forall|a: int, b: int| 0 <= a < b < rest.len() implies keys[
                #[trigger] rest[a]] >= keys[#[trigger] rest[b]] by {
                assert(rest[a] == order[a + 1] && rest[b] == order[b + 1]);
            }
        }
        assert forall|x: int| order.contains(x) <==> x == head || #[trigger] rest.contains(x) by {
            if order.contains(x) {
                let k = choose|k: int| 0 <= k < order.len() && order[k] == x;
                if k > 0 {
                    assert(rest[k - 1] == x);
                }
            }
            if rest.contains(x) {
                let k = choose|k: int| 0 <= k < rest.len() && rest[k] == x;
                assert(order[k + 1] == x);
            }
            assert(order[0] == head);
        }
        assert forall|x: int| #[trigger] rest.contains(x) implies sessions[head].createdAtMilliseconds
            >= sessions[x].createdAtMilliseconds by {
            let k = choose|k: int| 0 <= k < rest.len() && rest[k] == x;
            assert(order[k + 1] == x && order[0] == head);
            assert(order.contains(x) && order.contains(head));
            assert(keys[order[0]] >= keys[order[k + 1]]);
        }
        let keeps = !isEnded(sessions[head]) || room > 0;
        let left = if isEnded(sessions[head]) && room > 0 { (room - 1) as nat } else { room };
        lemmaRetained(rest, sessions, left);
        let inner = retained(rest, sessions, left);
        if keeps {
            assert(result == seq![head] + inner);
            assert(result.drop_first() == inner);
            assert forall|x: int| #[trigger] result.contains(x) <==> x == head || inner.contains(
                x,
            ) by {
                if result.contains(x) {
                    let k = choose|k: int| 0 <= k < result.len() && result[k] == x;
                    if k > 0 {
                        assert(inner[k - 1] == x);
                    }
                }
                if inner.contains(x) {
                    let k = choose|k: int| 0 <= k < inner.len() && inner[k] == x;
                    assert(result[k + 1] == x);
                }
                assert(result[0] == head);
            }
            assert forall|a: int, b: int| 0 <= a < b < result.len() implies keys[
                #[trigger] result[a]] >= keys[#[trigger] result[b]] by {
                assert(result[b] == inner[b - 1]);
                if a > 0 {
                    assert(result[a] == inner[a - 1]);
                } else {
                    assert(inner.contains(inner[b - 1]));
                    assert(rest.contains(inner[b - 1]));
                }
            }
        } else {
            assert(result == inner);
            lemmaNoRoom(rest, sessions);
        }
        assert forall|x: int| #[trigger] result.contains(x) implies order.contains(x) by {
            if x != head {
                assert(inner.contains(x));
                assert(rest.contains(x));
            } else {
                assert(order[0] == head);
            }
        }
        assert forall|x: int| #[trigger] order.contains(x) && !isEnded(
            sessions[x],
        ) implies result.contains(x) by {
            if x != head {
                assert(rest.contains(x));
                assert(inner.contains(x));
            }
        }
        assert forall|x: int, y: int|
            #![trigger result.contains(x), order.contains(y)]
            result.contains(x) && isEnded(sessions[x]) && order.contains(y) && !result.contains(
                y,
            ) implies sessions[x].createdAtMilliseconds >= sessions[y].createdAtMilliseconds by {
            if keeps {
                assert(y != head);
                assert(rest.contains(y));
                assert(!inner.contains(y));
                if x != head {
                    assert(inner.contains(x));
                }
            } else {
                assert(inner.contains(x));
                assert(false) by {
                    assert(!isEnded(sessions[x]));
                }
            }
        }
    }
}

/// Without room no ended session is kept.
proof fn lemmaNoRoom(order: Seq<int>, sessions: Seq<SessionSnapshot>)
    ensures
        forall|x: int| #[trigger]
            retained(order, sessions, 0).contains(x) ==> !isEnded(sessions[x]),
    decreases order.len(),
{
    if order.len() > 0 {
        lemmaNoRoom(order.drop_first(), sessions);
        let result = retained(order, sessions, 0);
        let inner = retained(order.drop_first(), sessions, 0);
        assert forall|x: int| #[trigger] result.contains(x) implies !isEnded(sessions[x]) by {
            if !isEnded(sessions[order[0]]) {
                let k = choose|k: int| 0 <= k < result.len() && result[k] == x;
                if k > 0 {
                    assert(inner[k - 1] == x);
                    assert(inner.contains(x));
                }
            }
        }
    }
}

/// Clients see every open session, at most `historyLimit` ended ones, newest first, and no ended
/// session is dropped in favour of an older one.
pub proof fn lawVisibleSessions(sessions: Seq<SessionSnapshot>, historyLimit: nat)
    ensures
        isLargestFirst(visibleSessions(sessions, historyLimit), creationTimes(sessions)),
        endedCount(visibleSessions(sessions, historyLimit), sessions) <= historyLimit,
        forall|x: int|
            0 <= x < sessions.len() && !isEnded(sessions[x]) ==> #[trigger] visibleSessions(
                sessions,
                historyLimit,
            ).contains(x),
        forall|x: int, y: int|
            #![trigger visibleSessions(sessions, historyLimit).contains(x), sessions[y]]
            visibleSessions(sessions, historyLimit).contains(x) && isEnded(sessions[x]) && 0 <= y
                < sessions.len() && !visibleSessions(sessions, historyLimit).contains(y)
                ==> sessions[x].createdAtMilliseconds >= sessions[y].createdAtMilliseconds,
{
    let count = sessions.len() as int;
    lawLargestFirst(creationTimes(sessions), count);
    let order = largestFirst(creationTimes(sessions), count);
    lemmaRetained(order, sessions, historyLimit);
    let visible = visibleSessions(sessions, historyLimit);
    assert forall|x: int| 0 <= x < sessions.len() && !isEnded(sessions[x]) implies #[trigger] visible.contains(
        x,
    ) by {
        assert(order.contains(x));
    }
    assert forall|x: int, y: int|
        #![trigger visible.contains(x), sessions[y]]
        visible.contains(x) && isEnded(sessions[x]) && 0 <= y < sessions.len()
            && !visible.contains(y) implies sessions[x].createdAtMilliseconds
        >= sessions[y].createdAtMilliseconds by {
        assert(order.contains(y));
    }
}

// ---------------------------------------------------------------------------
// Archiving
// ---------------------------------------------------------------------------

/// A session once its data plane is gone: an open one has failed, and no captured bytes stay.
pub open spec fn isArchived(
    before: SessionSnapshot,
    after: SessionSnapshot,
    now: u64,
) -> bool {
    &&& after.sessionId@ == before.sessionId@
    &&& after.createdAtMilliseconds == before.createdAtMilliseconds
    &&& after.capturedBytesUp@.len() == 0
    &&& after.capturedBytesDown@.len() == 0
    &&& after.capturedPackets@.len() == 0
    &&& if isEnded(before) {
        &&& after.state == before.state
        &&& after.updatedAtMilliseconds == before.updatedAtMilliseconds
        &&& after.closedAtMilliseconds == before.closedAtMilliseconds
        &&& after.errorMessage@ == before.errorMessage@
    } else {
        &&& after.state == SessionState::Failed
        &&& after.updatedAtMilliseconds == now
        &&& after.closedAtMilliseconds == now
        &&& after.errorMessage@ == if before.errorMessage@.len() == 0 {
            "数据面结束时会话任务未发布最终状态"@
        } else {
            before.errorMessage@
        }
    }
}

/// How many of the first `count` sessions are still open.
pub open spec fn openCount(sessions: Seq<SessionSnapshot>, count: int) -> nat
    decreases count,
{
    if count <= 0 {
        0
    } else {
        openCount(sessions, count - 1) + if isEnded(sessions[count - 1]) {
            0nat
        } else {
            1
        }
    }
}

/// The counters of a data plane that is gone.
pub open spec fn finalMetrics(metrics: ServiceMetrics, normalized: nat) -> ServiceMetrics {
    ServiceMetrics {
        activeConnections: 0,
        failedConnections: if metrics.failedConnections + normalized > u64::MAX {
            u64::MAX
        } else {
            (metrics.failedConnections + normalized) as u64
        },
        ..metrics
    }
}

/// Whether sessions are those of a data plane that is gone.
pub open spec fn areArchived(
    before: Seq<SessionSnapshot>,
    after: Seq<SessionSnapshot>,
    now: u64,
) -> bool {
    &&& after.len() == before.len()
    &&& forall|k: int| 0 <= k < before.len() ==> isArchived(#[trigger] before[k], after[k], now)
}

/// Settles the last snapshot of a data plane that is gone: sessions that never reported their end count
/// as failed, and captured bytes are let go.
pub fn settleSnapshot(
    sessions: Vec<SessionSnapshot>,
    metrics: ServiceMetrics,
    closedAtMilliseconds: u64,
) -> (result: (Vec<SessionSnapshot>, ServiceMetrics))
    ensures
        areArchived(sessions@, result.0@, closedAtMilliseconds),
        result.1 == finalMetrics(metrics, openCount(sessions@, sessions@.len() as int)),
{
    let mut archived: Vec<SessionSnapshot> = Vec::new();
    let mut normalized: u64 = 0;
    let mut i: usize = 0;
    while i < sessions.len()
        invariant
            i <= sessions.len(),
            archived@.len() == i,
            normalized == openCount(sessions@, i as int),
            normalized <= i,
            forall|k: int|
                0 <= k < i ==> isArchived(
                    #[trigger] sessions@[k],
                    archived@[k],
                    closedAtMilliseconds,
                ),
        decreases sessions.len() - i,
    {
        let session = &sessions[i];
        let ended = session.state == SessionState::Closed || session.state
            == SessionState::Failed;
        let errorMessage = if !ended && session.errorMessage.as_str().is_empty() {
            copyText("数据面结束时会话任务未发布最终状态")
        } else {
            copyText(session.errorMessage.as_str())
        };
        archived.push(
            SessionSnapshot {
                sessionId: copyText(session.sessionId.as_str()),
                state: if ended {
                    session.state
                } else {
                    SessionState::Failed
                },
                createdAtMilliseconds: session.createdAtMilliseconds,
                updatedAtMilliseconds: if ended {
                    session.updatedAtMilliseconds
                } else {
                    closedAtMilliseconds
                },
                closedAtMilliseconds: if ended {
                    session.closedAtMilliseconds
                } else {
                    closedAtMilliseconds
                },
                errorMessage,
                capturedBytesUp: Vec::new(),
                capturedBytesDown: Vec::new(),
                capturedPackets: Vec::new(),
            },
        );
        if !ended {
            normalized = normalized + 1;
        }
        i += 1;
    }
    let last = ServiceMetrics {
        acceptedConnections: metrics.acceptedConnections,
        activeConnections: 0,
        failedConnections: metrics.failedConnections.saturating_add(normalized),
        bytesUp: metrics.bytesUp,
        bytesDown: metrics.bytesDown,
        udpPacketsUp: metrics.udpPacketsUp,
        udpPacketsDown: metrics.udpPacketsDown,
        droppedUdpPackets: metrics.droppedUdpPackets,
    };
    (archived, last)
}

/// The values of the sessions at these positions.
pub open spec fn pickedSessions(sessions: Seq<SessionSnapshot>, at: Seq<int>) -> Seq<SessionView> {
    at.map_values(|i: int| sessions[i]@)
}

/// The values of sessions.
pub open spec fn sessionViews(sessions: Seq<SessionSnapshot>) -> Seq<SessionView> {
    sessions.map_values(|session: SessionSnapshot| session@)
}

/// Copies of the sessions that clients see, newest first.
pub fn visibleCopies(
    archivedSessions: &Vec<SessionSnapshot>,
    currentSessions: &Vec<SessionSnapshot>,
    historyLimit: usize,
) -> (result: Vec<SessionSnapshot>)
    ensures
        sessionViews(result@) == pickedSessions(
            archivedSessions@ + currentSessions@,
            visibleSessions(archivedSessions@ + currentSessions@, historyLimit as nat),
        ),
{
    let ghost all = archivedSessions@ + currentSessions@;
    let order = combineSessions(archivedSessions, currentSessions, historyLimit);
    let ghost wanted = pickedSessions(all, positions(order@));
    let mut result: Vec<SessionSnapshot> = Vec::new();
    let mut i: usize = 0;
    while i < order.len()
        invariant
            i <= order.len(),
            all == archivedSessions@ + currentSessions@,
            wanted == pickedSessions(all, positions(order@)),
            forall|k: int|
                0 <= k < order@.len() ==> #[trigger] order@[k] < archivedSessions@.len()
                    + currentSessions@.len(),
            sessionViews(result@) == wanted.take(i as int),
        decreases order.len() - i,
    {
        let ghost before = sessionViews(result@);
        let at: usize = order[i];
        assert(wanted[i as int] == all[at as int]@);
        let copy = if at < archivedSessions.len() {
            archivedSessions[at].copied()
        } else {
            currentSessions[at - archivedSessions.len()].copied()
        };
        result.push(copy);
        assert(sessionViews(result@) == before.push(wanted[i as int]));
        i += 1;
        assert(sessionViews(result@) == wanted.take(i as int));
    }
    assert(wanted.take(i as int) == wanted);
    result
}

/// What is left of data planes that are gone.
#[derive(Debug)]
pub struct ServiceArchive {
    pub sessions: Vec<SessionSnapshot>,
    pub metrics: ServiceMetrics,
}

impl ServiceArchive {
    /// Nothing yet.
    pub fn new() -> (result: ServiceArchive)
        ensures
            result.sessions@.len() == 0,
            result.metrics == noMetrics(),
    {
        ServiceArchive { sessions: Vec::new(), metrics: ServiceMetrics::default() }
    }

    /// Archives the last snapshot of a data plane that is gone: its counters join the archive, and so do
    /// its sessions, of which the newest stay.
    pub fn archiveRuntimeSnapshot(
        &mut self,
        sessions: Vec<SessionSnapshot>,
        metrics: ServiceMetrics,
        closedAtMilliseconds: u64,
        historyLimit: usize,
    )
        ensures
            final(self).metrics == combined(
                old(self).metrics,
                finalMetrics(metrics, openCount(sessions@, sessions@.len() as int)),
            ),
            exists|settled: Seq<SessionSnapshot>| #[trigger]
                areArchived(sessions@, settled, closedAtMilliseconds) && sessionViews(
                    final(self).sessions@,
                ) == pickedSessions(
                    old(self).sessions@ + settled,
                    visibleSessions(old(self).sessions@ + settled, historyLimit as nat),
                ),
    {
        let (settled, last) = settleSnapshot(sessions, metrics, closedAtMilliseconds);
        self.metrics = combineMetrics(&self.metrics, &last);
        self.sessions = visibleCopies(&self.sessions, &settled, historyLimit);
    }

    /// Moves the HTTP counters of a cycle that has ended into the archive.
    pub fn archiveHttpRuntimeMetrics(&mut self, http: Option<ServiceMetrics>)
        ensures
            final(self).sessions == old(self).sessions,
            final(self).metrics == match http {
                Some(metrics) => combined(old(self).metrics, metrics),
                None => old(self).metrics,
            },
    {
        match http {
            Some(metrics) => {
                self.metrics = combineMetrics(&self.metrics, &metrics);
            },
            None => {},
        }
    }

    /// Forgets the sessions of data planes that are gone and says whether the running one is asked to
    /// forget its ended sessions too.
    pub fn clearSessions(&mut self, running: bool) -> (askDataPlane: bool)
        ensures
            final(self).sessions@.len() == 0,
            final(self).metrics == old(self).metrics,
            askDataPlane == running,
    {
        self.sessions.clear();
        running
    }
}

/// No session of a data plane that is gone is still open, and none keeps captured bytes.
pub proof fn lawArchivedSessionsHaveEnded(
    before: Seq<SessionSnapshot>,
    after: Seq<SessionSnapshot>,
    now: u64,
)
    requires
        areArchived(before, after, now),
    ensures
        forall|k: int|
            0 <= k < after.len() ==> isEnded(#[trigger] after[k])
                && after[k].capturedBytesUp@.len() == 0 && after[k].capturedBytesDown@.len() == 0
                && after[k].capturedPackets@.len() == 0,
{
    assert forall|k: int| 0 <= k < after.len() implies isEnded(#[trigger] after[k])
        && after[k].capturedBytesUp@.len() == 0 && after[k].capturedBytesDown@.len() == 0
        && after[k].capturedPackets@.len() == 0 by {
        assert(isArchived(before[k], after[k], now));
    }
}

/// Nothing is hidden while the history has room: all sessions are shown where no more have ended than it holds.
pub proof fn lawHistoryWithRoomShowsAll(sessions: Seq<SessionSnapshot>, historyLimit: nat)
    requires
        sessions.len() <= historyLimit,
    ensures
        forall|x: int|
            0 <= x < sessions.len() ==> #[trigger] visibleSessions(sessions, historyLimit).contains(
                x,
            ),
        visibleSessions(sessions, historyLimit).len() == sessions.len(),
{
    let order = largestFirst(creationTimes(sessions), sessions.len() as int);
    lawLargestFirst(creationTimes(sessions), sessions.len() as int);
    lemmaRoomForAll(order, sessions, historyLimit);
}

proof fn lemmaRoomForAll(order: Seq<int>, sessions: Seq<SessionSnapshot>, room: nat)
    requires
        order.len() <= room,
    ensures
        retained(order, sessions, room) == order,
    decreases order.len(),
{
    if order.len() > 0 {
        let rest = order.drop_first();
        lemmaRoomForAll(rest, sessions, room);
        lemmaRoomForAll(rest, sessions, (room - 1) as nat);
        assert(seq![order[0]] + rest =~= order);
    }
}

/// A session that had not ended when its data plane did is shown as failed at that moment, and says so where it
/// said nothing; one that had keeps what it said. The counters end with nothing active and count each as failed.
pub proof fn lawUnfinishedSessionsFail(
    before: SessionSnapshot,
    after: SessionSnapshot,
    now: u64,
    metrics: ServiceMetrics,
    unfinished: nat,
)
    requires
        isArchived(before, after, now),
    ensures
        after.sessionId@ == before.sessionId@ && after.createdAtMilliseconds
            == before.createdAtMilliseconds,
        before.state == SessionState::Open ==> after.state == SessionState::Failed
            && after.closedAtMilliseconds == now && after.updatedAtMilliseconds == now,
        before.state != SessionState::Open ==> after.state == before.state
            && after.closedAtMilliseconds == before.closedAtMilliseconds && after.errorMessage@
            == before.errorMessage@,
        before.errorMessage@.len() > 0 ==> after.errorMessage@ == before.errorMessage@,
        before.state == SessionState::Open && before.errorMessage@.len() == 0
            ==> after.errorMessage@.len() > 0,
        finalMetrics(metrics, unfinished).activeConnections == 0,
        metrics.failedConnections + unfinished <= u64::MAX ==> finalMetrics(
            metrics,
            unfinished,
        ).failedConnections == metrics.failedConnections + unfinished,
        finalMetrics(metrics, unfinished).bytesUp == metrics.bytesUp && finalMetrics(
            metrics,
            unfinished,
        ).acceptedConnections == metrics.acceptedConnections,
{
    reveal_strlit("数据面结束时会话任务未发布最终状态");
}

/// Each session that has not ended is counted once.
pub proof fn lawOpenSessionsAreCounted(sessions: Seq<SessionSnapshot>, count: int)
    requires
        0 <= count < sessions.len(),
    ensures
        openCount(sessions, 0) == 0,
        openCount(sessions, count + 1) == openCount(sessions, count) + if sessions[count].state
            == SessionState::Open {
            1int
        } else {
            0
        },
{
}

/// A session that is put away holds no recorded bytes any more; one that had ended keeps its times, and one that had
/// not is told as lost unless it told something itself.
pub proof fn lawArchiveKeepsNoBytes(before: SessionSnapshot, after: SessionSnapshot, now: u64)
    requires
        isArchived(before, after, now),
    ensures
        after.capturedBytesUp@.len() == 0,
        after.capturedBytesDown@.len() == 0,
        after.capturedPackets@.len() == 0,
        before.state != SessionState::Open ==> after.updatedAtMilliseconds == before.updatedAtMilliseconds,
        before.state == SessionState::Open && before.errorMessage@.len() == 0 ==> after.errorMessage@
            == "数据面结束时会话任务未发布最终状态"@,
{
}

} // verus!
