//! Following the data plane: changes are gathered for a short time and published together.

use crate::controlApi::sessions::{creationTimes, isEnded, SessionSnapshot, SessionState};
use crate::ordering::{orderSmallestFirst, positions, smallestFirst};
use crate::text::{copyText, optionalView};
use vstd::prelude::*;

verus! {

/// For how long changes are gathered, in milliseconds.
pub const runtimeEventCoalescingMilliseconds: u64 = 50;

/// How long a stopping service waits for the last changes, in milliseconds.
pub const runtimeEventDrainMilliseconds: u64 = 1000;

// ---------------------------------------------------------------------------
// Gathering changes
// ---------------------------------------------------------------------------

/// Where a follower stands.
#[derive(Clone, Copy, Debug, PartialEq, Eq, Structural)]
pub enum FollowerPhase {
    /// Everything that changed is published.
    Waiting,
    /// Something changed; more is gathered until the window ends.
    Gathering,
    /// Nothing is followed any more.
    Ended,
}

/// What a follower notices.
#[derive(Clone, Copy, Debug, PartialEq, Eq, Structural)]
pub enum FollowerEvent {
    Changed,
    /// Some changes were missed.
    Lagged,
    /// The window has ended.
    WindowEnded,
    /// Publishing failed.
    PublishFailed,
    /// Nothing will change any more.
    Closed,
    /// The control plane shuts down.
    Shutdown,
}

/// What a follower does.
#[derive(Clone, Copy, Debug, PartialEq, Eq, Structural)]
pub enum FollowerAction {
    /// Wait for the next event; a window that is open keeps its end.
    Wait,
    /// Set the end of a new window.
    OpenWindow,
    /// Publish what changed.
    Publish,
    /// Stop following, publishing nothing more.
    End,
}

/// What an event leads to.
pub open spec fn followed(phase: FollowerPhase, event: FollowerEvent) -> (
    FollowerPhase,
    FollowerAction,
) {
    match (phase, event) {
        (FollowerPhase::Ended, _) => (FollowerPhase::Ended, FollowerAction::End),
        (_, FollowerEvent::Closed | FollowerEvent::Shutdown | FollowerEvent::PublishFailed) => (
            FollowerPhase::Ended,
            FollowerAction::End,
        ),
        (FollowerPhase::Waiting, FollowerEvent::Changed | FollowerEvent::Lagged) => (
            FollowerPhase::Gathering,
            FollowerAction::OpenWindow,
        ),
        (FollowerPhase::Gathering, FollowerEvent::WindowEnded) => (
            FollowerPhase::Waiting,
            FollowerAction::Publish,
        ),
        _ => (phase, FollowerAction::Wait),
    }
}

/// Follows the data plane.
#[derive(Clone, Copy, Debug, PartialEq, Eq, Structural)]
pub struct Follower {
    pub phase: FollowerPhase,
}

impl Follower {
    /// A follower that has seen no change.
    pub fn new() -> (result: Follower)
        ensures
            result.phase == FollowerPhase::Waiting,
    {
        Follower { phase: FollowerPhase::Waiting }
    }

    /// Takes what was noticed.
    pub fn forwardRuntimeEvents(&mut self, event: FollowerEvent) -> (result: FollowerAction)
        ensures
            (final(self).phase, result) == followed(old(self).phase, event),
    {
        match (self.phase, event) {
            (FollowerPhase::Ended, _) => FollowerAction::End,
            (_, FollowerEvent::Closed) => {
                self.phase = FollowerPhase::Ended;
                FollowerAction::End
            },
            (_, FollowerEvent::Shutdown) => {
                self.phase = FollowerPhase::Ended;
                FollowerAction::End
            },
            (_, FollowerEvent::PublishFailed) => {
                self.phase = FollowerPhase::Ended;
                FollowerAction::End
            },
            (FollowerPhase::Waiting, FollowerEvent::Changed) => {
                self.phase = FollowerPhase::Gathering;
                FollowerAction::OpenWindow
            },
            (FollowerPhase::Waiting, FollowerEvent::Lagged) => {
                self.phase = FollowerPhase::Gathering;
                FollowerAction::OpenWindow
            },
            (FollowerPhase::Gathering, FollowerEvent::WindowEnded) => {
                self.phase = FollowerPhase::Waiting;
                FollowerAction::Publish
            },
            _ => FollowerAction::Wait,
        }
    }
}

/// Where a follower stands after events.
pub open spec fn phaseAfter(events: Seq<FollowerEvent>) -> FollowerPhase
    decreases events.len(),
{
    if events.len() == 0 {
        FollowerPhase::Waiting
    } else {
        followed(phaseAfter(events.drop_last()), events.last()).0
    }
}

/// How often events made a follower publish.
pub open spec fn publications(events: Seq<FollowerEvent>) -> nat
    decreases events.len(),
{
    if events.len() == 0 {
        0
    } else {
        publications(events.drop_last()) + if followed(
            phaseAfter(events.drop_last()),
            events.last(),
        ).1 == FollowerAction::Publish {
            1nat
        } else {
            0
        }
    }
}

/// How many changes events brought.
pub open spec fn changes(events: Seq<FollowerEvent>) -> nat
    decreases events.len(),
{
    if events.len() == 0 {
        0
    } else {
        changes(events.drop_last()) + if events.last() == FollowerEvent::Changed || events.last()
            == FollowerEvent::Lagged {
            1nat
        } else {
            0
        }
    }
}

/// A burst of changes is never published more often than it changed anything, and a follower that
/// gathers has one publication still to make.
pub proof fn lawBurstsArePublishedTogether(events: Seq<FollowerEvent>)
    ensures
        publications(events) + (if phaseAfter(events) == FollowerPhase::Gathering {
            1nat
        } else {
            0
        }) <= changes(events),
    decreases events.len(),
{
    if events.len() > 0 {
        lawBurstsArePublishedTogether(events.drop_last());
    }
}

/// No change is lost: unless following ends, the end of the window publishes it, and a follower that
/// waits has published everything.
pub proof fn lawChangesArePublished(phase: FollowerPhase, event: FollowerEvent)
    requires
        phase != FollowerPhase::Ended,
    ensures
        event == FollowerEvent::Changed || event == FollowerEvent::Lagged ==> followed(
            phase,
            event,
        ).0 == FollowerPhase::Gathering,
        phase == FollowerPhase::Gathering ==> followed(phase, FollowerEvent::WindowEnded) == (
            FollowerPhase::Waiting,
            FollowerAction::Publish,
        ),
        phase == FollowerPhase::Gathering && followed(phase, event).0 == FollowerPhase::Waiting
            ==> followed(phase, event).1 == FollowerAction::Publish,
{
}

// ---------------------------------------------------------------------------
// Writing sessions down
// ---------------------------------------------------------------------------

/// Which sessions are written down for an event.
#[derive(Clone, Copy, Debug, PartialEq, Eq, Structural)]
pub enum SessionProjection {
    /// The session that changed.
    One,
    /// Every session that the data plane knows, since some changes were missed.
    All,
    /// None.
    Nothing,
}

/// Which sessions are written down for an event.
pub fn projectionFor(event: FollowerEvent) -> (result: SessionProjection)
    ensures
        result == match event {
            FollowerEvent::Changed => SessionProjection::One,
            FollowerEvent::Lagged => SessionProjection::All,
            _ => SessionProjection::Nothing,
        },
{
    match event {
        FollowerEvent::Changed => SessionProjection::One,
        FollowerEvent::Lagged => SessionProjection::All,
        _ => SessionProjection::Nothing,
    }
}

/// The order in which sessions are written down: the oldest first.
pub fn projectSocksSessions(sessions: &Vec<SessionSnapshot>) -> (result: Vec<usize>)
    ensures
        positions(result@) == smallestFirst(creationTimes(sessions@)),
        forall|k: int| 0 <= k < result@.len() ==> result@[k] < sessions@.len(),
{
    let mut keys: Vec<u64> = Vec::new();
    let mut i: usize = 0;
    while i < sessions.len()
        invariant
            i <= sessions.len(),
            keys@ == creationTimes(sessions@).take(i as int),
        decreases sessions.len() - i,
    {
        keys.push(sessions[i].createdAtMilliseconds);
        i += 1;
        assert(keys@ == creationTimes(sessions@).take(i as int));
    }
    assert(keys@ == creationTimes(sessions@));
    orderSmallestFirst(&keys)
}

/// Whether the data plane may let go of what it holds of a session: once the session has ended and was
/// written down.
pub fn mayReleaseCapturedBytes(session: &SessionSnapshot, written: bool) -> (result: bool)
    ensures
        result == (written && isEnded(*session)),
{
    written && (session.state == SessionState::Closed || session.state == SessionState::Failed)
}

// ---------------------------------------------------------------------------
// Ends
// ---------------------------------------------------------------------------

/// How waiting for the last changes ended.
#[derive(Clone, Copy, Debug, PartialEq, Eq, Structural)]
pub enum DrainOutcome {
    /// There was nothing to wait for.
    Absent,
    Finished,
    Crashed,
    TimedOut,
}

/// What is done about it.
#[derive(Clone, Copy, Debug, PartialEq, Eq, Structural)]
pub enum DrainAction {
    Done,
    /// Report the crash.
    Report,
    /// Stop the follower by force and report it.
    Abort,
}

/// What is done once waiting for the last changes has ended; a stopping service never waits on.
pub fn drainRuntimeEventForwarder(outcome: DrainOutcome) -> (result: DrainAction)
    ensures
        result == match outcome {
            DrainOutcome::Absent | DrainOutcome::Finished => DrainAction::Done,
            DrainOutcome::Crashed => DrainAction::Report,
            DrainOutcome::TimedOut => DrainAction::Abort,
        },
{
    match outcome {
        DrainOutcome::Absent => DrainAction::Done,
        DrainOutcome::Finished => DrainAction::Done,
        DrainOutcome::Crashed => DrainAction::Report,
        DrainOutcome::TimedOut => DrainAction::Abort,
    }
}

/// What is seen of a data plane that is watched.
#[derive(Debug)]
pub enum ExitObservation {
    /// It has not told its end.
    Running,
    /// It has told its end.
    Ended(String),
    /// It is gone without having told its end.
    Lost,
}

/// What ended the data plane; nothing while it runs.
pub fn waitForServerExit(observation: ExitObservation) -> (result: Option<String>)
    ensures
        optionalView(result) == match observation {
            ExitObservation::Running => None,
            ExitObservation::Ended(message) => Some(message@),
            ExitObservation::Lost => Some("SOCKS5 服务退出监控通道关闭"@),
        },
{
    match observation {
        ExitObservation::Running => None,
        ExitObservation::Ended(message) => Some(message),
        ExitObservation::Lost => Some(copyText("SOCKS5 服务退出监控通道关闭")),
    }
}

/// Whether waiting for the shutdown is over: it was announced, or nobody can announce it any more.
pub fn waitForControlShutdown(announced: bool, channelClosed: bool) -> (over: bool)
    ensures
        over == (announced || channelClosed),
{
    announced || channelClosed
}

/// A follower ends exactly where it is told to or cannot go on, opens a window at the first change and otherwise
/// waits; once ended it stays so.
pub proof fn lawFollowerWaitsForChanges(phase: FollowerPhase, event: FollowerEvent)
    ensures
        event == FollowerEvent::Closed || event == FollowerEvent::Shutdown || event
            == FollowerEvent::PublishFailed ==> followed(phase, event) == (
            FollowerPhase::Ended,
            FollowerAction::End,
        ),
        followed(FollowerPhase::Ended, event) == (FollowerPhase::Ended, FollowerAction::End),
        followed(phase, event).1 == FollowerAction::OpenWindow <==> phase == FollowerPhase::Waiting
            && (event == FollowerEvent::Changed || event == FollowerEvent::Lagged),
        followed(phase, event).1 == FollowerAction::Publish <==> phase == FollowerPhase::Gathering
            && event == FollowerEvent::WindowEnded,
        phase != FollowerPhase::Ended && event != FollowerEvent::Closed && event
            != FollowerEvent::Shutdown && event != FollowerEvent::PublishFailed ==> followed(
            phase,
            event,
        ).0 != FollowerPhase::Ended,
{
}

/// A change counts once, whether it was seen or missed; nothing else counts.
pub proof fn lawChangesAreCounted(events: Seq<FollowerEvent>, event: FollowerEvent)
    ensures
        changes(Seq::empty()) == 0,
        event == FollowerEvent::Changed || event == FollowerEvent::Lagged ==> changes(events.push(event))
            == changes(events) + 1,
        event != FollowerEvent::Changed && event != FollowerEvent::Lagged ==> changes(events.push(event))
            == changes(events),
{
    assert(events.push(event).drop_last() =~= events);
}

} // verus!
