//! Load tests: the progress of one, and the list of those that are remembered.

use crate::controlApi::httpControl::{plainError, ApiError};
use crate::controlApi::repeatControl::latency::{
    latencySummary, summarizeLatency, LatencyStatistics,
};
use crate::controlApi::repeatControl::{
    maximumAdvancedRepeatConcurrency, maximumAdvancedRepeatIterations, maximumRetainedLoadTests,
    AdvancedRepeatPlan, PlanView,
};
use crate::identifier::{isRandomText, newIdentifierText};
use crate::localization::{errorKey, ErrorCode};
use crate::ordering::{largestFirst, lawLargestFirst, orderLargestFirst, positions};
use crate::text::{
    copyOptional, copyText, equalText, lemmaTextOrderTotal, lemmaTextOrderTransitive, lessText,
    optionalView, textLess,
};
use vstd::prelude::*;

verus! {

/// The states of a load test; the last three are final.
#[derive(Clone, Copy, Debug, PartialEq, Eq, Structural)]
pub enum AdvancedRepeatState {
    Queued,
    Running,
    Completed,
    Cancelled,
    Failed,
}

/// What clients see of a load test.
#[derive(Debug)]
pub struct AdvancedRepeatJob {
    pub jobId: String,
    pub state: AdvancedRepeatState,
    pub plan: AdvancedRepeatPlan,
    pub startedAtMilliseconds: u64,
    pub finishedAtMilliseconds: Option<u64>,
    pub completedIterations: usize,
    pub successCount: usize,
    pub failureCount: usize,
    pub latencyMilliseconds: LatencyStatistics,
    pub lastError: Option<String>,
}

/// The mathematical value of a load test as clients see it.
pub struct RepeatJobView {
    pub jobId: Seq<char>,
    pub state: AdvancedRepeatState,
    pub plan: PlanView,
    pub startedAtMilliseconds: u64,
    pub finishedAtMilliseconds: Option<u64>,
    pub completedIterations: usize,
    pub successCount: usize,
    pub failureCount: usize,
    pub latencyMilliseconds: LatencyStatistics,
    pub lastError: Option<Seq<char>>,
}

impl View for AdvancedRepeatJob {
    type V = RepeatJobView;

    open spec fn view(&self) -> RepeatJobView {
        RepeatJobView {
            jobId: self.jobId@,
            state: self.state,
            plan: self.plan@,
            startedAtMilliseconds: self.startedAtMilliseconds,
            finishedAtMilliseconds: self.finishedAtMilliseconds,
            completedIterations: self.completedIterations,
            successCount: self.successCount,
            failureCount: self.failureCount,
            latencyMilliseconds: self.latencyMilliseconds,
            lastError: optionalView(self.lastError),
        }
    }
}

impl AdvancedRepeatJob {
    /// An independent copy.
    pub fn copied(&self) -> (result: AdvancedRepeatJob)
        ensures
            result@ == self@,
    {
        AdvancedRepeatJob {
            jobId: copyText(self.jobId.as_str()),
            state: self.state,
            plan: self.plan.copied(),
            startedAtMilliseconds: self.startedAtMilliseconds,
            finishedAtMilliseconds: self.finishedAtMilliseconds,
            completedIterations: self.completedIterations,
            successCount: self.successCount,
            failureCount: self.failureCount,
            latencyMilliseconds: self.latencyMilliseconds,
            lastError: copyOptional(&self.lastError),
        }
    }
}

/// What one iteration came to.
#[derive(Debug)]
pub struct ReplayIterationResult {
    pub succeeded: bool,
    pub latencyMilliseconds: u64,
    pub errorCode: Option<String>,
}

impl ReplayIterationResult {
    /// An iteration that failed before anything was sent.
    pub fn failed(errorCode: &str) -> (result: ReplayIterationResult)
        ensures
            !result.succeeded,
            result.latencyMilliseconds == 0,
            optionalView(result.errorCode) == Some(errorCode@),
    {
        ReplayIterationResult {
            succeeded: false,
            latencyMilliseconds: 0,
            errorCode: Some(copyText(errorCode)),
        }
    }

    /// An iteration that was refused with an error of the control API.
    pub fn refused(error: &ApiError) -> (result: ReplayIterationResult)
        ensures
            !result.succeeded,
            result.latencyMilliseconds == 0,
            optionalView(result.errorCode) == Some(errorKey(error.code)),
    {
        ReplayIterationResult::failed(error.code.messageKey())
    }

    /// An iteration that was carried out, with the code of its error if it failed.
    pub fn finished(error: Option<&str>, elapsedMilliseconds: u64) -> (result:
        ReplayIterationResult)
        ensures
            result.succeeded == error is None,
            result.latencyMilliseconds == elapsedMilliseconds,
            match error {
                Some(code) => optionalView(result.errorCode) == Some(code@),
                None => result.errorCode is None,
            },
    {
        match error {
            Some(code) => ReplayIterationResult {
                succeeded: false,
                latencyMilliseconds: elapsedMilliseconds,
                errorCode: Some(copyText(code)),
            },
            None => ReplayIterationResult {
                succeeded: true,
                latencyMilliseconds: elapsedMilliseconds,
                errorCode: None,
            },
        }
    }
}

/// A load test and what drives it.
#[derive(Debug)]
pub struct ManagedLoadTest {
    pub snapshot: AdvancedRepeatJob,
    pub latencySamples: Vec<u64>,
    pub cancelled: bool,
    /// How many iterations were started.
    pub started: usize,
    /// How many of them have not ended.
    pub active: usize,
}

/// The mathematical value of a load test.
pub struct LoadTestView {
    pub job: RepeatJobView,
    pub samples: Seq<u64>,
    pub cancelled: bool,
    pub started: usize,
    pub active: usize,
}

impl View for ManagedLoadTest {
    type V = LoadTestView;

    open spec fn view(&self) -> LoadTestView {
        LoadTestView {
            job: self.snapshot@,
            samples: self.latencySamples@,
            cancelled: self.cancelled,
            started: self.started,
            active: self.active,
        }
    }
}

/// Whether a state is final.
pub open spec fn isFinal(state: AdvancedRepeatState) -> bool {
    state == AdvancedRepeatState::Completed || state == AdvancedRepeatState::Cancelled || state
        == AdvancedRepeatState::Failed
}

/// What holds of every load test: the counters agree with each other and with the samples, the plan
/// bounds them, and a finish time stands exactly where the state is final.
pub open spec fn isSound(test: LoadTestView) -> bool {
    &&& test.job.completedIterations == test.job.successCount + test.job.failureCount
    &&& test.samples.len() == test.job.completedIterations
    &&& test.job.latencyMilliseconds == latencySummary(test.samples)
    &&& test.started == test.job.completedIterations + test.active
    &&& test.started <= test.job.plan.totalIterations <= maximumAdvancedRepeatIterations
    &&& test.active <= test.job.plan.concurrency <= maximumAdvancedRepeatConcurrency
    &&& test.job.plan.concurrency >= 1
    &&& test.job.finishedAtMilliseconds is Some == isFinal(test.job.state)
    &&& test.job.state == AdvancedRepeatState::Cancelled ==> test.cancelled
}

/// What drives a load test next.
#[derive(Clone, Copy, Debug, PartialEq, Eq, Structural)]
pub enum LoadAction {
    /// Wait between two iterations.
    Pause(u64),
    /// Take a connection slot and start an iteration.
    Launch,
    /// Wait for an iteration to end.
    Join,
    /// Nothing is left to do.
    Finish,
}

/// The next action: as many iterations at once as the plan allows, a pause before every one but the
/// first, and only waiting once the test is cancelled. `paused` tells that the pause before the next
/// iteration is over.
pub open spec fn loadAction(test: LoadTestView, paused: bool) -> LoadAction {
    let plan = test.job.plan;
    if test.active == 0 && (test.cancelled || test.started >= plan.totalIterations) {
        LoadAction::Finish
    } else if test.cancelled || test.active >= plan.concurrency || test.started
        >= plan.totalIterations {
        LoadAction::Join
    } else if test.started > 0 && plan.intervalMilliseconds > 0 && !paused {
        LoadAction::Pause(plan.intervalMilliseconds)
    } else {
        LoadAction::Launch
    }
}

/// A test in its first state.
pub open spec fn queuedTest(jobId: Seq<char>, plan: PlanView, now: u64) -> LoadTestView {
    LoadTestView {
        job: RepeatJobView {
            jobId,
            state: AdvancedRepeatState::Queued,
            plan,
            startedAtMilliseconds: now,
            finishedAtMilliseconds: None,
            completedIterations: 0,
            successCount: 0,
            failureCount: 0,
            latencyMilliseconds: latencySummary(Seq::empty()),
            lastError: None,
        },
        samples: Seq::empty(),
        cancelled: false,
        started: 0,
        active: 0,
    }
}

/// A test that begins to run.
pub open spec fn begunTest(test: LoadTestView) -> LoadTestView {
    if test.cancelled {
        test
    } else {
        LoadTestView {
            job: RepeatJobView { state: AdvancedRepeatState::Running, ..test.job },
            ..test
        }
    }
}

/// A test with one more iteration under way.
pub open spec fn launchedTest(test: LoadTestView) -> LoadTestView {
    LoadTestView {
        started: (test.started + 1) as usize,
        active: (test.active + 1) as usize,
        ..test
    }
}

/// A test with one iteration ended. The first failure ends a test that stops on errors.
pub open spec fn settledTest(
    test: LoadTestView,
    succeeded: bool,
    latency: u64,
    error: Option<Seq<char>>,
) -> LoadTestView {
    let samples = test.samples.push(latency);
    let failureCount = if succeeded {
        test.job.failureCount
    } else {
        (test.job.failureCount + 1) as usize
    };
    LoadTestView {
        job: RepeatJobView {
            completedIterations: (test.job.completedIterations + 1) as usize,
            successCount: if succeeded {
                (test.job.successCount + 1) as usize
            } else {
                test.job.successCount
            },
            failureCount,
            lastError: if succeeded {
                test.job.lastError
            } else {
                error
            },
            latencyMilliseconds: latencySummary(samples),
            ..test.job
        },
        samples,
        cancelled: test.cancelled || (test.job.plan.stopOnError && failureCount > 0),
        started: test.started,
        active: (test.active - 1) as usize,
    }
}

/// A test that a client ends.
pub open spec fn cancelledTest(test: LoadTestView, now: u64) -> LoadTestView {
    if test.job.state == AdvancedRepeatState::Queued || test.job.state
        == AdvancedRepeatState::Running {
        LoadTestView {
            job: RepeatJobView {
                state: AdvancedRepeatState::Cancelled,
                finishedAtMilliseconds: Some(now),
                ..test.job
            },
            cancelled: true,
            ..test
        }
    } else {
        test
    }
}

/// A test that has nothing left to do.
pub open spec fn concludedTest(test: LoadTestView, now: u64) -> LoadTestView {
    if test.job.state == AdvancedRepeatState::Cancelled {
        test
    } else {
        LoadTestView {
            job: RepeatJobView {
                state: if test.job.failureCount > 0 && test.job.plan.stopOnError {
                    AdvancedRepeatState::Failed
                } else {
                    AdvancedRepeatState::Completed
                },
                finishedAtMilliseconds: Some(now),
                ..test.job
            },
            ..test
        }
    }
}

impl ManagedLoadTest {
    /// A test in its first state.
    pub fn new(jobId: String, plan: AdvancedRepeatPlan, now: u64) -> (result: ManagedLoadTest)
        requires
            1 <= plan.concurrency <= maximumAdvancedRepeatConcurrency,
            plan.totalIterations <= maximumAdvancedRepeatIterations,
        ensures
            result@ == queuedTest(jobId@, plan@, now),
            isSound(result@),
    {
        ManagedLoadTest {
            snapshot: AdvancedRepeatJob {
                jobId,
                state: AdvancedRepeatState::Queued,
                plan,
                startedAtMilliseconds: now,
                finishedAtMilliseconds: None,
                completedIterations: 0,
                successCount: 0,
                failureCount: 0,
                latencyMilliseconds: LatencyStatistics { min: 0, max: 0, p50: 0, p95: 0, p99: 0 },
                lastError: None,
            },
            latencySamples: Vec::new(),
            cancelled: false,
            started: 0,
            active: 0,
        }
    }

    /// A test in its first state, under a fresh identifier.
    pub fn queue(plan: AdvancedRepeatPlan, now: u64) -> (result: ManagedLoadTest)
        requires
            1 <= plan.concurrency <= maximumAdvancedRepeatConcurrency,
            plan.totalIterations <= maximumAdvancedRepeatIterations,
        ensures
            isRandomText(result@.job.jobId),
            result@ == queuedTest(result@.job.jobId, plan@, now),
            isSound(result@),
    {
        ManagedLoadTest::new(newIdentifierText(), plan, now)
    }

    /// Begins to run, unless the test was cancelled before.
    pub fn begin(&mut self) -> (result: bool)
        requires
            isSound(old(self)@),
            old(self)@.job.state == AdvancedRepeatState::Queued || old(self)@.cancelled,
        ensures
            result == !old(self)@.cancelled,
            final(self)@ == begunTest(old(self)@),
            isSound(final(self)@),
    {
        if self.cancelled {
            return false;
        }
        self.snapshot.state = AdvancedRepeatState::Running;
        true
    }

    /// What drives the test next.
    pub fn run(&self, paused: bool) -> (result: LoadAction)
        ensures
            result == loadAction(self@, paused),
    {
        let total: usize = self.snapshot.plan.totalIterations;
        if self.active == 0 && (self.cancelled || self.started >= total) {
            LoadAction::Finish
        } else if self.cancelled || self.active >= self.snapshot.plan.concurrency || self.started
            >= total {
            LoadAction::Join
        } else if self.started > 0 && self.snapshot.plan.intervalMilliseconds > 0 && !paused {
            LoadAction::Pause(self.snapshot.plan.intervalMilliseconds)
        } else {
            LoadAction::Launch
        }
    }

    /// Counts an iteration that was started.
    pub fn launch(&mut self)
        requires
            isSound(old(self)@),
            loadAction(old(self)@, true) == LoadAction::Launch,
        ensures
            final(self)@ == launchedTest(old(self)@),
            isSound(final(self)@),
    {
        self.started = self.started + 1;
        self.active = self.active + 1;
    }

    /// Counts an iteration that ended.
    pub fn updateLoadTestProgress(&mut self, outcome: ReplayIterationResult)
        requires
            isSound(old(self)@),
            old(self)@.active > 0,
        ensures
            final(self)@ == settledTest(
                old(self)@,
                outcome.succeeded,
                outcome.latencyMilliseconds,
                optionalView(outcome.errorCode),
            ),
            isSound(final(self)@),
    {
        self.snapshot.completedIterations = self.snapshot.completedIterations + 1;
        if outcome.succeeded {
            self.snapshot.successCount = self.snapshot.successCount + 1;
        } else {
            self.snapshot.failureCount = self.snapshot.failureCount + 1;
            self.snapshot.lastError = outcome.errorCode;
        }
        self.latencySamples.push(outcome.latencyMilliseconds);
        self.snapshot.latencyMilliseconds = summarizeLatency(&self.latencySamples);
        self.active = self.active - 1;
        if self.snapshot.plan.stopOnError && self.snapshot.failureCount > 0 {
            self.cancelled = true;
        }
    }

    /// Ends the test on a client's wish; a test that has ended stays as it is.
    pub fn cancel(&mut self, now: u64)
        requires
            isSound(old(self)@),
        ensures
            final(self)@ == cancelledTest(old(self)@, now),
            isSound(final(self)@),
    {
        match self.snapshot.state {
            AdvancedRepeatState::Queued | AdvancedRepeatState::Running => {
                self.cancelled = true;
                self.snapshot.state = AdvancedRepeatState::Cancelled;
                self.snapshot.finishedAtMilliseconds = Some(now);
            },
            _ => {},
        }
    }

    /// Ends a test that has nothing left to do.
    pub fn conclude(&mut self, now: u64)
        requires
            isSound(old(self)@),
            loadAction(old(self)@, true) == LoadAction::Finish,
        ensures
            final(self)@ == concludedTest(old(self)@, now),
            isSound(final(self)@),
    {
        if self.snapshot.state != AdvancedRepeatState::Cancelled {
            self.snapshot.state = if self.snapshot.failureCount > 0
                && self.snapshot.plan.stopOnError {
                AdvancedRepeatState::Failed
            } else {
                AdvancedRepeatState::Completed
            };
            self.snapshot.finishedAtMilliseconds = Some(now);
        }
    }
}

/// A cancelled test starts nothing more, and stays cancelled to its end.
pub proof fn lawCancelledTestWindsDown(test: LoadTestView, paused: bool, now: u64)
    requires
        isSound(test),
        test.cancelled,
    ensures
        loadAction(test, paused) == if test.active == 0 {
            LoadAction::Finish
        } else {
            LoadAction::Join
        },
        forall|succeeded: bool, latency: u64, error: Option<Seq<char>>|
            (#[trigger] settledTest(test, succeeded, latency, error)).cancelled,
        test.job.state == AdvancedRepeatState::Cancelled ==> concludedTest(test, now) == test,
{
}

/// A test that ends without being cancelled has run every iteration of its plan, and counts each of
/// them once.
pub proof fn lawUncancelledTestRunsItsPlan(test: LoadTestView, paused: bool)
    requires
        isSound(test),
        !test.cancelled,
        loadAction(test, paused) == LoadAction::Finish,
    ensures
        test.job.completedIterations == test.job.plan.totalIterations,
        test.job.successCount + test.job.failureCount == test.job.plan.totalIterations,
{
}

/// As many iterations are under way at once as the plan allows: while one may still be started and there
/// is room for it, a test that goes on neither waits for another one nor ends. Once the pause is over it
/// is told to start, and the only thing that it may be told before is to pause.
pub proof fn lawFreeRoomIsUsed(test: LoadTestView, paused: bool)
    requires
        isSound(test),
        !test.cancelled,
        test.started < test.job.plan.totalIterations,
        test.active < test.job.plan.concurrency,
    ensures
        loadAction(test, true) == LoadAction::Launch,
        loadAction(test, paused) == LoadAction::Launch || loadAction(test, paused)
            == LoadAction::Pause(test.job.plan.intervalMilliseconds),
{
}

/// The first iteration starts at once, every other one after the pause of the plan, and without a pause
/// in the plan there is none.
pub proof fn lawPauseStandsBetweenIterations(test: LoadTestView)
    requires
        isSound(test),
        !test.cancelled,
        test.started < test.job.plan.totalIterations,
        test.active < test.job.plan.concurrency,
    ensures
        loadAction(test, false) is Pause <==> test.started > 0
            && test.job.plan.intervalMilliseconds > 0,
        test.started == 0 ==> loadAction(test, false) == LoadAction::Launch,
{
}

/// No more iterations are under way than the plan allows, and no more are started than it asks for: a test
/// with its room taken, or with everything started, waits for one that is under way.
pub proof fn lawPlanBoundsIterations(test: LoadTestView, paused: bool)
    requires
        isSound(test),
        test.active > 0,
    ensures
        test.active == test.job.plan.concurrency ==> loadAction(test, paused) == LoadAction::Join,
        test.started == test.job.plan.totalIterations ==> loadAction(test, paused)
            == LoadAction::Join,
        loadAction(test, paused) != LoadAction::Finish,
{
}

/// A test ends only once nothing is under way and nothing is to be started any more, and then it does.
pub proof fn lawTestEndsWhenNothingIsLeft(test: LoadTestView, paused: bool)
    requires
        isSound(test),
    ensures
        loadAction(test, paused) == LoadAction::Finish <==> test.active == 0 && (test.cancelled
            || test.started == test.job.plan.totalIterations),
{
}

/// Every iteration is counted once: a start as one more under way, an end as one less, as a success or a
/// failure, and with its latency. The error that is shown is that of the last failure.
pub proof fn lawIterationsAreCounted(
    test: LoadTestView,
    succeeded: bool,
    latency: u64,
    error: Option<Seq<char>>,
)
    requires
        isSound(test),
    ensures
        test.started < test.job.plan.totalIterations ==> {
            let next = launchedTest(test);
            &&& next.started == test.started + 1
            &&& next.active == test.active + 1
            &&& next.job == test.job
            &&& next.samples == test.samples
            &&& next.cancelled == test.cancelled
        },
        test.active > 0 ==> {
            let next = settledTest(test, succeeded, latency, error);
            &&& next.started == test.started
            &&& next.active == test.active - 1
            &&& next.samples == test.samples.push(latency)
            &&& next.job.completedIterations == test.job.completedIterations + 1
            &&& next.job.successCount == test.job.successCount + if succeeded {
                1int
            } else {
                0
            }
            &&& next.job.failureCount == test.job.failureCount + if succeeded {
                0int
            } else {
                1
            }
            &&& next.job.lastError == if succeeded {
                test.job.lastError
            } else {
                error
            }
            &&& next.job.state == test.job.state
            &&& next.job.plan == test.job.plan
            &&& next.job.jobId == test.job.jobId
        },
{
}

/// A failure ends a test early exactly where its plan says so; a success never does.
pub proof fn lawFailureEndsOnlyOnRequest(
    test: LoadTestView,
    succeeded: bool,
    latency: u64,
    error: Option<Seq<char>>,
)
    requires
        isSound(test),
        !test.cancelled,
        test.job.failureCount == 0,
        test.active > 0,
    ensures
        settledTest(test, succeeded, latency, error).cancelled <==> !succeeded
            && test.job.plan.stopOnError,
{
}

/// How a test ends: one that a client ended stays cancelled, one that stops on errors and met one has
/// failed, and every other one is completed. The end is dated.
pub proof fn lawEndTellsWhatHappened(test: LoadTestView, now: u64)
    requires
        isSound(test),
        loadAction(test, true) == LoadAction::Finish,
    ensures
        ({
            let end = concludedTest(test, now).job;
            &&& end.state == AdvancedRepeatState::Cancelled <==> test.job.state
                == AdvancedRepeatState::Cancelled
            &&& end.state == AdvancedRepeatState::Failed <==> test.job.state
                != AdvancedRepeatState::Cancelled && test.job.plan.stopOnError
                && test.job.failureCount > 0
            &&& isFinal(end.state)
            &&& test.job.state != AdvancedRepeatState::Cancelled ==> end.finishedAtMilliseconds
                == Some(now)
            &&& end.successCount == test.job.successCount
            &&& end.failureCount == test.job.failureCount
        }),
{
}

/// A client ends a test that waits or runs, at once and dated; one that has ended stays as it is.
pub proof fn lawClientEndsATest(test: LoadTestView, now: u64)
    requires
        isSound(test),
    ensures
        !isFinal(test.job.state) ==> {
            let end = cancelledTest(test, now);
            &&& end.cancelled
            &&& end.job.state == AdvancedRepeatState::Cancelled
            &&& end.job.finishedAtMilliseconds == Some(now)
            &&& end.job.completedIterations == test.job.completedIterations
            &&& end.active == test.active
        },
        isFinal(test.job.state) ==> cancelledTest(test, now) == test,
{
}

/// A test begins with nothing started, and runs from its beginning unless it was ended before.
pub proof fn lawTestBegins(jobId: Seq<char>, plan: PlanView, now: u64, test: LoadTestView)
    ensures
        ({
            let first = queuedTest(jobId, plan, now);
            &&& first.started == 0 && first.active == 0 && !first.cancelled
            &&& first.job.completedIterations == 0 && first.job.lastError is None
            &&& first.job.successCount == 0 && first.job.failureCount == 0 && first.samples.len() == 0
            &&& first.job.latencyMilliseconds.min == 0 && first.job.latencyMilliseconds.max == 0
            &&& first.job.jobId == jobId && first.job.plan == plan
            &&& first.job.startedAtMilliseconds == now && first.job.finishedAtMilliseconds is None
            &&& first.job.state == AdvancedRepeatState::Queued
        }),
        !test.cancelled ==> begunTest(test).job.state == AdvancedRepeatState::Running,
        test.cancelled ==> begunTest(test) == test,
        begunTest(test).started == test.started && begunTest(test).active == test.active,
{
}

/// A test never stalls: what it is told to do is possible, and waiting for an iteration is asked for
/// only while one is under way.
pub proof fn lawLoadTestNeverStalls(test: LoadTestView, paused: bool)
    requires
        isSound(test),
    ensures
        loadAction(test, paused) == LoadAction::Join ==> test.active > 0,
        loadAction(test, paused) == LoadAction::Launch ==> isSound(launchedTest(test)),
        loadAction(test, true) !is Pause,
        test.active > 0 ==> test.job.plan.totalIterations - settledTest(
            test,
            true,
            0,
            None,
        ).job.completedIterations < test.job.plan.totalIterations - test.job.completedIterations,
{
}

// ---------------------------------------------------------------------------
// The remembered tests
// ---------------------------------------------------------------------------

/// The load tests of the service, in the order of their identifiers.
#[derive(Debug)]
pub struct RepeatRuntime {
    pub jobs: Vec<ManagedLoadTest>,
}

/// The values of tests.
pub open spec fn testViews(jobs: Seq<ManagedLoadTest>) -> Seq<LoadTestView> {
    jobs.map_values(|test: ManagedLoadTest| test@)
}

/// Whether tests stand in the order of their identifiers, each once.
pub open spec fn isOrderedById(jobs: Seq<LoadTestView>) -> bool {
    forall|i: int, j: int|
        0 <= i < j < jobs.len() ==> textLess(
            (#[trigger] jobs[i]).job.jobId,
            (#[trigger] jobs[j]).job.jobId,
        )
}

/// The tests with one more, in place of one with the same identifier.
pub open spec fn testInserted(jobs: Seq<LoadTestView>, test: LoadTestView) -> Seq<LoadTestView>
    decreases jobs.len(),
{
    if jobs.len() == 0 || textLess(test.job.jobId, jobs[0].job.jobId) {
        seq![test] + jobs
    } else if test.job.jobId == jobs[0].job.jobId {
        seq![test] + jobs.drop_first()
    } else {
        seq![jobs[0]] + testInserted(jobs.drop_first(), test)
    }
}

/// Whether a test has ended.
pub open spec fn hasEnded(test: LoadTestView) -> bool {
    test.job.finishedAtMilliseconds is Some
}

/// The place of the test that began first among those that have ended; of two that began at once,
/// the first by identifier.
pub open spec fn oldestEnded(jobs: Seq<LoadTestView>) -> Option<int>
    decreases jobs.len(),
{
    if jobs.len() == 0 {
        None
    } else {
        let before = oldestEnded(jobs.drop_last());
        let better = match before {
            Some(i) => jobs.last().job.startedAtMilliseconds < jobs[i].job.startedAtMilliseconds,
            None => true,
        };
        if hasEnded(jobs.last()) && better {
            Some(jobs.len() - 1)
        } else {
            before
        }
    }
}

/// The tests that stay: while there are too many, the oldest that has ended goes.
pub open spec fn prunedTests(jobs: Seq<LoadTestView>) -> Seq<LoadTestView>
    decreases jobs.len(),
{
    if jobs.len() <= maximumRetainedLoadTests {
        jobs
    } else {
        match oldestEnded(jobs) {
            Some(i) => if 0 <= i < jobs.len() {
                prunedTests(jobs.remove(i))
            } else {
                jobs
            },
            None => jobs,
        }
    }
}

proof fn lemmaOldestEnded(jobs: Seq<LoadTestView>)
    ensures
        match oldestEnded(jobs) {
            Some(i) => {
                &&& 0 <= i < jobs.len()
                &&& hasEnded(jobs[i])
                &&& forall|k: int|
                    0 <= k < jobs.len() && hasEnded(#[trigger] jobs[k])
                        ==> jobs[i].job.startedAtMilliseconds <= jobs[k].job.startedAtMilliseconds
            },
            None => forall|k: int| 0 <= k < jobs.len() ==> !hasEnded(#[trigger] jobs[k]),
        },
    decreases jobs.len(),
{
    if jobs.len() > 0 {
        let before = jobs.drop_last();
        lemmaOldestEnded(before);
        assert forall|k: int| 0 <= k < before.len() implies #[trigger] jobs[k] == before[k] by {}
        match oldestEnded(before) {
            Some(i) => {
                assert(jobs[i] == before[i]);
            },
            None => {},
        }
    }
}

/// Pruning drops ended tests only, the oldest first, until few enough are left or none that has
/// ended.
pub proof fn lawPruningKeepsRunningTests(jobs: Seq<LoadTestView>)
    ensures
        forall|test: LoadTestView|
            jobs.contains(test) && !hasEnded(test) ==> #[trigger] prunedTests(jobs).contains(test),
        forall|test: LoadTestView|
            #[trigger] prunedTests(jobs).contains(test) ==> jobs.contains(test),
        prunedTests(jobs).len() <= maximumRetainedLoadTests || forall|k: int|
            0 <= k < prunedTests(jobs).len() ==> !hasEnded(#[trigger] prunedTests(jobs)[k]),
        isOrderedById(jobs) ==> isOrderedById(prunedTests(jobs)),
    decreases jobs.len(),
{
    lemmaOldestEnded(jobs);
    if jobs.len() > maximumRetainedLoadTests && oldestEnded(jobs) is Some {
        let i = oldestEnded(jobs)->0;
        let rest = jobs.remove(i);
        lawPruningKeepsRunningTests(rest);
        assert forall|test: LoadTestView| jobs.contains(test) && !hasEnded(
            test,
        ) implies #[trigger] prunedTests(jobs).contains(test) by {
            let k = choose|k: int| 0 <= k < jobs.len() && jobs[k] == test;
            if k < i {
                assert(rest[k] == test);
            } else {
                assert(rest[k - 1] == test);
            }
            assert(rest.contains(test));
            assert(prunedTests(rest).contains(test));
        }
        assert forall|test: LoadTestView| #[trigger] prunedTests(jobs).contains(
            test,
        ) implies jobs.contains(test) by {
            assert(prunedTests(rest).contains(test));
            assert(rest.contains(test));
            let k = choose|k: int| 0 <= k < rest.len() && rest[k] == test;
            if k < i {
                assert(jobs[k] == test);
            } else {
                assert(jobs[k + 1] == test);
            }
        }
        if isOrderedById(jobs) {
            assert forall|a: int, b: int| 0 <= a < b < rest.len() implies textLess(
                (#[trigger] rest[a]).job.jobId,
                (#[trigger] rest[b]).job.jobId,
            ) by {
                let x = if a < i {
                    a
                } else {
                    a + 1
                };
                let y = if b < i {
                    b
                } else {
                    b + 1
                };
                assert(rest[a] == jobs[x] && rest[b] == jobs[y]);
            }
        }
    }
}

proof fn lemmaTestInserted(jobs: Seq<LoadTestView>, test: LoadTestView)
    requires
        isOrderedById(jobs),
    ensures
        isOrderedById(testInserted(jobs, test)),
        testInserted(jobs, test).contains(test),
        testInserted(jobs, test).len() <= jobs.len() + 1,
        forall|k: int|
            0 <= k < testInserted(jobs, test).len() ==> (#[trigger] testInserted(jobs, test)[k])
                == test || jobs.contains(testInserted(jobs, test)[k]),
        forall|k: int|
            0 <= k < jobs.len() && (#[trigger] jobs[k]).job.jobId != test.job.jobId
                ==> testInserted(jobs, test).contains(jobs[k]),
    decreases jobs.len(),
{
    let result = testInserted(jobs, test);
    if jobs.len() == 0 || textLess(test.job.jobId, jobs[0].job.jobId) {
        assert(result[0] == test);
        assert forall|a: int, b: int| 0 <= a < b < result.len() implies textLess(
            (#[trigger] result[a]).job.jobId,
            (#[trigger] result[b]).job.jobId,
        ) by {
            assert(result[b] == jobs[b - 1]);
            if a == 0 {
                if b > 1 {
                    lemmaTextOrderTransitive(
                        test.job.jobId,
                        jobs[0].job.jobId,
                        jobs[b - 1].job.jobId,
                    );
                }
            } else {
                assert(result[a] == jobs[a - 1]);
            }
        }
        assert forall|k: int| 0 <= k < jobs.len() implies result.contains(#[trigger] jobs[k]) by {
            assert(result[k + 1] == jobs[k]);
        }
    } else if test.job.jobId == jobs[0].job.jobId {
        assert(result[0] == test);
        assert forall|k: int| 1 <= k < result.len() implies #[trigger] result[k] == jobs[k] by {}
        assert forall|k: int|
            0 <= k < jobs.len() && (#[trigger] jobs[k]).job.jobId
                != test.job.jobId implies result.contains(jobs[k]) by {
            assert(result[k] == jobs[k]);
        }
    } else {
        let rest = jobs.drop_first();
        assert forall|a: int, b: int| 0 <= a < b < rest.len() implies textLess(
            (#[trigger] rest[a]).job.jobId,
            (#[trigger] rest[b]).job.jobId,
        ) by {
            assert(rest[a] == jobs[a + 1] && rest[b] == jobs[b + 1]);
        }
        lemmaTestInserted(rest, test);
        lemmaTextOrderTotal(test.job.jobId, jobs[0].job.jobId);
        let inner = testInserted(rest, test);
        assert(result[0] == jobs[0]);
        assert forall|k: int| 1 <= k < result.len() implies #[trigger] result[k] == inner[k - 1] by {}
        assert(result.contains(test)) by {
            let k = choose|k: int| 0 <= k < inner.len() && inner[k] == test;
            assert(result[k + 1] == test);
        }
        assert forall|k: int| 0 <= k < inner.len() implies textLess(
            jobs[0].job.jobId,
            (#[trigger] inner[k]).job.jobId,
        ) by {
            if inner[k] != test {
                assert(rest.contains(inner[k]));
                let j = choose|j: int| 0 <= j < rest.len() && rest[j] == inner[k];
                assert(jobs[j + 1] == inner[k]);
                assert(textLess(jobs[0].job.jobId, jobs[j + 1].job.jobId));
            }
        }
        assert forall|a: int, b: int| 0 <= a < b < result.len() implies textLess(
            (#[trigger] result[a]).job.jobId,
            (#[trigger] result[b]).job.jobId,
        ) by {
            assert(result[b] == inner[b - 1]);
            if a > 0 {
                assert(result[a] == inner[a - 1]);
            }
        }
        assert forall|k: int| 0 <= k < result.len() implies (#[trigger] result[k]) == test
            || jobs.contains(result[k]) by {
            if k == 0 {
                assert(jobs[0] == result[0]);
            } else if inner[k - 1] != test {
                assert(rest.contains(inner[k - 1]));
                let j = choose|j: int| 0 <= j < rest.len() && rest[j] == inner[k - 1];
                assert(jobs[j + 1] == inner[k - 1]);
            }
        }
        assert forall|k: int|
            0 <= k < jobs.len() && (#[trigger] jobs[k]).job.jobId
                != test.job.jobId implies result.contains(jobs[k]) by {
            if k == 0 {
                assert(result[0] == jobs[0]);
            } else {
                assert(rest[k - 1] == jobs[k]);
                assert(inner.contains(rest[k - 1]));
                let j = choose|j: int| 0 <= j < inner.len() && inner[j] == rest[k - 1];
                assert(result[j + 1] == jobs[k]);
            }
        }
    }
}

/// A test that was started is remembered: it is found under its identifier while it runs, and no
/// other test that runs is forgotten for it.
pub proof fn lawStartedTestIsRemembered(jobs: Seq<LoadTestView>, test: LoadTestView)
    requires
        isOrderedById(jobs),
        !hasEnded(test),
    ensures
        isOrderedById(prunedTests(testInserted(jobs, test))),
        prunedTests(testInserted(jobs, test)).contains(test),
        forall|k: int|
            0 <= k < jobs.len() && !hasEnded(#[trigger] jobs[k]) && jobs[k].job.jobId
                != test.job.jobId ==> prunedTests(testInserted(jobs, test)).contains(jobs[k]),
{
    lemmaTestInserted(jobs, test);
    lawPruningKeepsRunningTests(testInserted(jobs, test));
}

/// The place of a test by its identifier.
pub open spec fn indexOfTest(jobs: Seq<LoadTestView>, id: Seq<char>) -> Option<int>
    decreases jobs.len(),
{
    if jobs.len() == 0 {
        None
    } else {
        match indexOfTest(jobs.drop_last(), id) {
            Some(i) => Some(i),
            None => if jobs.last().job.jobId == id {
                Some(jobs.len() - 1)
            } else {
                None
            },
        }
    }
}

/// A lookup finds a test with the identifier wherever there is one.
pub proof fn lawLookupFindsIdentifier(jobs: Seq<LoadTestView>, id: Seq<char>)
    ensures
        match indexOfTest(jobs, id) {
            Some(i) => 0 <= i < jobs.len() && jobs[i].job.jobId == id,
            None => forall|k: int| 0 <= k < jobs.len() ==> (#[trigger] jobs[k]).job.jobId != id,
        },
    decreases jobs.len(),
{
    if jobs.len() > 0 {
        let before = jobs.drop_last();
        lawLookupFindsIdentifier(before, id);
        assert forall|k: int| 0 <= k < before.len() implies #[trigger] jobs[k] == before[k] by {}
    }
}

/// The start times of tests.
pub open spec fn startTimes(jobs: Seq<LoadTestView>) -> Seq<u64> {
    jobs.map_values(|test: LoadTestView| test.job.startedAtMilliseconds)
}

/// What clients see of the tests at given places.
pub open spec fn jobsAt(jobs: Seq<LoadTestView>, order: Seq<int>) -> Seq<RepeatJobView> {
    order.map_values(|i: int| jobs[i].job)
}

/// The values of what clients see.
pub open spec fn jobViews(jobs: Seq<AdvancedRepeatJob>) -> Seq<RepeatJobView> {
    jobs.map_values(|job: AdvancedRepeatJob| job@)
}

impl View for RepeatRuntime {
    type V = Seq<LoadTestView>;

    open spec fn view(&self) -> Seq<LoadTestView> {
        testViews(self.jobs@)
    }
}

impl RepeatRuntime {
    /// No tests.
    pub fn new() -> (result: RepeatRuntime)
        ensures
            result@.len() == 0,
            isOrderedById(result@),
    {
        RepeatRuntime { jobs: Vec::new() }
    }

    fn insert(&mut self, test: ManagedLoadTest)
        ensures
            final(self)@ == testInserted(old(self)@, test@),
    {
        let ghost all = self@;
        let mut at: usize = 0;
        assert(all.skip(0) == all);
        assert(all.take(0) + testInserted(all.skip(0), test@) == testInserted(all, test@));
        while at < self.jobs.len() && lessText(
            self.jobs[at].snapshot.jobId.as_str(),
            test.snapshot.jobId.as_str(),
        )
            invariant
                at <= self.jobs.len(),
                all == testViews(self.jobs@),
                all.take(at as int) + testInserted(all.skip(at as int), test@) == testInserted(
                    all,
                    test@,
                ),
            decreases self.jobs.len() - at,
        {
            let ghost rest = all.skip(at as int);
            proof {
                lemmaTextOrderTotal(rest[0].job.jobId, test@.job.jobId);
                assert(rest[0] == self.jobs@[at as int]@);
                assert(rest.drop_first() == all.skip(at + 1));
                assert(all.take(at as int) + (seq![rest[0]] + testInserted(
                    rest.drop_first(),
                    test@,
                )) == all.take(at + 1) + testInserted(all.skip(at + 1), test@));
            }
            at += 1;
        }
        let ghost rest = all.skip(at as int);
        let ghost added = test@;
        if at < self.jobs.len() && equalText(
            self.jobs[at].snapshot.jobId.as_str(),
            test.snapshot.jobId.as_str(),
        ) {
            proof {
                assert(rest[0] == self.jobs@[at as int]@);
                lemmaTextOrderTotal(added.job.jobId, rest[0].job.jobId);
            }
            self.jobs[at] = test;
            assert(self@ == all.take(at as int) + (seq![added] + rest.drop_first()));
        } else {
            proof {
                if at < self.jobs@.len() {
                    assert(rest[0] == self.jobs@[at as int]@);
                    lemmaTextOrderTotal(added.job.jobId, rest[0].job.jobId);
                }
            }
            self.jobs.insert(at, test);
            assert(self@ == all.take(at as int) + (seq![added] + rest));
        }
    }

    fn pruneCompleted(&mut self)
        ensures
            final(self)@ == prunedTests(old(self)@),
    {
        let ghost wanted = prunedTests(self@);
        while self.jobs.len() > maximumRetainedLoadTests
            invariant
                prunedTests(self@) == wanted,
                wanted == prunedTests(old(self)@),
            decreases self.jobs.len(),
        {
            let ghost all = self@;
            proof {
                lemmaOldestEnded(all);
            }
            match self.findOldestEnded() {
                Some(i) => {
                    let _ = self.jobs.remove(i);
                    assert(self@ == all.remove(i as int));
                },
                None => {
                    return;
                },
            }
        }
    }

    fn findOldestEnded(&self) -> (result: Option<usize>)
        ensures
            match result {
                Some(i) => i < self.jobs@.len() && oldestEnded(self@) == Some(i as int),
                None => oldestEnded(self@) is None,
            },
    {
        let ghost all = self@;
        let mut best: Option<usize> = None;
        let mut i: usize = 0;
        assert(all.take(0).len() == 0);
        while i < self.jobs.len()
            invariant
                i <= self.jobs.len(),
                all == testViews(self.jobs@),
                match best {
                    Some(k) => k < i && oldestEnded(all.take(i as int)) == Some(k as int),
                    None => oldestEnded(all.take(i as int)) is None,
                },
            decreases self.jobs.len() - i,
        {
            assert(all.take(i + 1).drop_last() == all.take(i as int));
            assert(all.take(i + 1).last() == self.jobs@[i as int]@);
            let better = match best {
                Some(k) => self.jobs[i].snapshot.startedAtMilliseconds
                    < self.jobs[k].snapshot.startedAtMilliseconds,
                None => true,
            };
            if self.jobs[i].snapshot.finishedAtMilliseconds.is_some() && better {
                best = Some(i);
            }
            i += 1;
        }
        assert(all.take(i as int) == all);
        best
    }

    /// Remembers a test and forgets old ones where there are too many.
    pub fn start(&mut self, test: ManagedLoadTest)
        requires
            isOrderedById(old(self)@),
        ensures
            final(self)@ == prunedTests(testInserted(old(self)@, test@)),
            isOrderedById(final(self)@),
    {
        proof {
            lemmaTestInserted(self@, test@);
            lawPruningKeepsRunningTests(testInserted(self@, test@));
        }
        self.insert(test);
        self.pruneCompleted();
    }

    fn find(&self, jobId: &str) -> (result: Option<usize>)
        ensures
            match result {
                Some(i) => i < self.jobs@.len() && indexOfTest(self@, jobId@) == Some(i as int),
                None => indexOfTest(self@, jobId@) is None,
            },
    {
        let ghost all = self@;
        let mut i: usize = 0;
        assert(all.take(0).len() == 0);
        while i < self.jobs.len()
            invariant
                i <= self.jobs.len(),
                all == testViews(self.jobs@),
                indexOfTest(all.take(i as int), jobId@) is None,
            decreases self.jobs.len() - i,
        {
            assert(all.take(i + 1).drop_last() == all.take(i as int));
            assert(all.take(i + 1).last() == self.jobs@[i as int]@);
            if equalText(self.jobs[i].snapshot.jobId.as_str(), jobId) {
                proof {
                    lemmaFoundEarly(all, jobId@, i + 1);
                }
                return Some(i);
            }
            i += 1;
        }
        assert(all.take(i as int) == all);
        None
    }

    /// What clients see of one test.
    pub fn get(&self, jobId: &str) -> (result: Result<AdvancedRepeatJob, ApiError>)
        ensures
            match result {
                Ok(job) => indexOfTest(self@, jobId@) is Some && job@ == self@[indexOfTest(
                    self@,
                    jobId@,
                )->0].job,
                Err(error) => indexOfTest(self@, jobId@) is None && error@ == plainError(
                    404,
                    ErrorCode::LoadTestNotFound,
                ),
            },
    {
        match self.find(jobId) {
            Some(i) => Ok(self.jobs[i].snapshot.copied()),
            None => Err(ApiError::notFound(ErrorCode::LoadTestNotFound)),
        }
    }

    /// What clients see of all tests, the latest first.
    pub fn list(&self) -> (result: Vec<AdvancedRepeatJob>)
        ensures
            jobViews(result@) == jobsAt(
                self@,
                largestFirst(startTimes(self@), self@.len() as int),
            ),
    {
        let ghost all = self@;
        let mut times: Vec<u64> = Vec::new();
        let mut i: usize = 0;
        while i < self.jobs.len()
            invariant
                i <= self.jobs.len(),
                all == testViews(self.jobs@),
                times@ == startTimes(all).take(i as int),
            decreases self.jobs.len() - i,
        {
            times.push(self.jobs[i].snapshot.startedAtMilliseconds);
            i += 1;
            assert(times@ == startTimes(all).take(i as int));
        }
        assert(times@ == startTimes(all));
        let order = orderLargestFirst(&times);
        let ghost wanted = jobsAt(all, positions(order@));
        let mut result: Vec<AdvancedRepeatJob> = Vec::new();
        let mut k: usize = 0;
        while k < order.len()
            invariant
                k <= order.len(),
                all == testViews(self.jobs@),
                wanted == jobsAt(all, positions(order@)),
                forall|j: int| 0 <= j < order@.len() ==> order@[j] < self.jobs@.len(),
                jobViews(result@) == wanted.take(k as int),
            decreases order.len() - k,
        {
            let ghost before = result@;
            result.push(self.jobs[order[k]].snapshot.copied());
            assert(jobViews(result@) == jobViews(before).push(
                self.jobs@[order@[k as int] as int].snapshot@,
            ));
            assert(wanted[k as int] == self.jobs@[order@[k as int] as int].snapshot@);
            k += 1;
            assert(jobViews(result@) == wanted.take(k as int));
        }
        assert(wanted.take(k as int) == wanted);
        result
    }

    /// Ends a test on a client's wish.
    pub fn cancel(&mut self, jobId: &str, now: u64) -> (result: Result<AdvancedRepeatJob, ApiError>)
        requires
            forall|k: int| 0 <= k < old(self)@.len() ==> isSound(#[trigger] old(self)@[k]),
        ensures
            match indexOfTest(old(self)@, jobId@) {
                Some(i) => {
                    &&& final(self)@ == old(self)@.update(i, cancelledTest(old(self)@[i], now))
                    &&& result is Ok && result->Ok_0@ == cancelledTest(old(self)@[i], now).job
                },
                None => {
                    &&& final(self)@ == old(self)@
                    &&& result is Err && result->Err_0@ == plainError(
                        404,
                        ErrorCode::LoadTestNotFound,
                    )
                },
            },
    {
        match self.find(jobId) {
            Some(i) => {
                let ghost all = self@;
                assert(all[i as int] == self.jobs@[i as int]@);
                assert(isSound(all[i as int]));
                let mut test = self.jobs.remove(i);
                test.cancel(now);
                let snapshot = test.snapshot.copied();
                self.jobs.insert(i, test);
                assert(self@ == all.update(i as int, cancelledTest(all[i as int], now)));
                Ok(snapshot)
            },
            None => Err(ApiError::notFound(ErrorCode::LoadTestNotFound)),
        }
    }
}

proof fn lemmaFoundEarly(jobs: Seq<LoadTestView>, id: Seq<char>, upTo: int)
    requires
        0 <= upTo <= jobs.len(),
        indexOfTest(jobs.take(upTo), id) is Some,
    ensures
        indexOfTest(jobs, id) == indexOfTest(jobs.take(upTo), id),
    decreases jobs.len() - upTo,
{
    if upTo == jobs.len() {
        assert(jobs.take(upTo) == jobs);
    } else {
        assert(jobs.take(upTo + 1).drop_last() == jobs.take(upTo));
        lemmaFoundEarly(jobs, id, upTo + 1);
    }
}

/// Tests are forgotten only where there are too many, the earliest first: none that was forgotten was begun
/// after an ended one that is remembered.
pub proof fn lawEarliestTestIsForgottenFirst(jobs: Seq<LoadTestView>)
    ensures
        jobs.len() <= 64 ==> prunedTests(jobs) == jobs,
        jobs.len() > 64 ==> 64 <= prunedTests(jobs).len() <= jobs.len(),
        forall|gone: LoadTestView, kept: LoadTestView|
            #![trigger jobs.contains(gone), prunedTests(jobs).contains(kept)]
            jobs.contains(gone) && !prunedTests(jobs).contains(gone) && prunedTests(jobs).contains(
                kept,
            ) && hasEnded(kept) ==> hasEnded(gone) && gone.job.startedAtMilliseconds
                <= kept.job.startedAtMilliseconds,
    decreases jobs.len(),
{
    lemmaOldestEnded(jobs);
    lawPruningKeepsRunningTests(jobs);
    if jobs.len() > maximumRetainedLoadTests && oldestEnded(jobs) is Some {
        let i = oldestEnded(jobs)->0;
        let rest = jobs.remove(i);
        lawEarliestTestIsForgottenFirst(rest);
        lawPruningKeepsRunningTests(rest);
        assert forall|gone: LoadTestView, kept: LoadTestView|
            #![trigger jobs.contains(gone), prunedTests(jobs).contains(kept)]
            jobs.contains(gone) && !prunedTests(jobs).contains(gone) && prunedTests(jobs).contains(
                kept,
            ) && hasEnded(kept) implies hasEnded(gone) && gone.job.startedAtMilliseconds
            <= kept.job.startedAtMilliseconds by {
            assert(jobs.contains(kept));
            let k = choose|k: int| 0 <= k < jobs.len() && jobs[k] == gone;
            let l = choose|l: int| 0 <= l < jobs.len() && jobs[l] == kept;
            if k != i {
                assert(rest[if k < i {
                    k
                } else {
                    k - 1
                }] == gone);
                assert(rest.contains(gone));
                assert(prunedTests(rest).contains(kept));
            }
        }
    }
}

/// Tests are listed all of them, the latest first.
pub proof fn lawLatestTestIsListedFirst(jobs: Seq<LoadTestView>)
    ensures
        ({
            let order = largestFirst(startTimes(jobs), jobs.len() as int);
            let listed = jobsAt(jobs, order);
            &&& listed.len() == jobs.len()
            &&& forall|i: int, j: int|
                0 <= i < j < listed.len() ==> (#[trigger] listed[i]).startedAtMilliseconds
                    >= (#[trigger] listed[j]).startedAtMilliseconds
            &&& forall|k: int|
                0 <= k < jobs.len() ==> exists|i: int|
                    0 <= i < listed.len() && #[trigger] listed[i] == (#[trigger] jobs[k]).job
        }),
{
    let times = startTimes(jobs);
    let order = largestFirst(times, jobs.len() as int);
    let listed = jobsAt(jobs, order);
    lawLargestFirst(times, jobs.len() as int);
    assert forall|i: int, j: int| 0 <= i < j < listed.len() implies (#[trigger] listed[i]).startedAtMilliseconds
        >= (#[trigger] listed[j]).startedAtMilliseconds by {
        assert(order.contains(order[i]) && order.contains(order[j]));
        assert(listed[i].startedAtMilliseconds == times[order[i]]);
        assert(listed[j].startedAtMilliseconds == times[order[j]]);
    }
    assert forall|k: int| 0 <= k < jobs.len() implies exists|i: int|
        0 <= i < listed.len() && #[trigger] listed[i] == (#[trigger] jobs[k]).job by {
        assert(order.contains(k));
        let i = choose|i: int| 0 <= i < order.len() && order[i] == k;
        assert(listed[i] == jobs[k].job);
    }
}

} // verus!
