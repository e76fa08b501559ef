//! Generating Android clients on demand: one job at a time, a short history of records, and a
//! package that lives only as long as its download.

pub mod download;
pub mod nodeAddress;
pub mod packageIdentity;
pub mod packagerProcess;

use crate::controlApi::clientPackageControl::packageIdentity::{
    applicationIdOf, applicationNameOf, identityDigest, isValidApplicationId,
    isValidApplicationName, nameLabel, packageFileName, packageFileNameOf, packageLabel,
    randomApplicationId, randomApplicationName, validApplicationId, validApplicationName,
};
use crate::encoding::{digestSha256, encodeHex, hexDigit, hexText, sha256};
use crate::identifier::{canonicalForm, canonicalText, isRandomIdentifier, newIdentifier};
use crate::ordering::{largestFirst, lawLargestFirst, orderLargestFirst, positions};
use crate::text::{
    byteLen, byteLength, charsOf, concatText, copyOptional, copyText, equalText, optionalView,
};
use vstd::prelude::*;
use vstd::utf8::{is_ascii_chars, is_ascii_chars_encode_utf8};

verus! {

/// How many records are kept.
pub const maximumRetainedPackages: usize = 10;

/// The largest icon in bytes.
pub const maximumClientIconBytes: usize = 1048576;

/// How often the removal of a temporary package is tried.
pub const clientPackageCleanupAttempts: usize = 8;

/// The stages of a job; the last two are final.
#[derive(Clone, Copy, Debug, PartialEq, Eq, Structural)]
pub enum ClientPackageStage {
    Preparing,
    Building,
    Verifying,
    Ready,
    Failed,
}

/// One job. It never holds credentials.
#[derive(Debug)]
pub struct ClientPackageJob {
    pub id: u128,
    pub stage: ClientPackageStage,
    pub applicationId: String,
    pub applicationName: String,
    pub nodeHost: String,
    pub nodePort: u16,
    pub startedAtMilliseconds: u64,
    pub failureReason: Option<String>,
}

/// The mathematical value of a job.
pub struct JobView {
    pub id: u128,
    pub stage: ClientPackageStage,
    pub applicationId: Seq<char>,
    pub applicationName: Seq<char>,
    pub nodeHost: Seq<char>,
    pub nodePort: u16,
    pub startedAtMilliseconds: u64,
    pub failureReason: Option<Seq<char>>,
}

impl View for ClientPackageJob {
    type V = JobView;

    open spec fn view(&self) -> JobView {
        JobView {
            id: self.id,
            stage: self.stage,
            applicationId: self.applicationId@,
            applicationName: self.applicationName@,
            nodeHost: self.nodeHost@,
            nodePort: self.nodePort,
            startedAtMilliseconds: self.startedAtMilliseconds,
            failureReason: optionalView(self.failureReason),
        }
    }
}

impl ClientPackageJob {
    /// An independent copy.
    pub fn copied(&self) -> (result: ClientPackageJob)
        ensures
            result@ == self@,
    {
        ClientPackageJob {
            id: self.id,
            stage: self.stage,
            applicationId: copyText(self.applicationId.as_str()),
            applicationName: copyText(self.applicationName.as_str()),
            nodeHost: copyText(self.nodeHost.as_str()),
            nodePort: self.nodePort,
            startedAtMilliseconds: self.startedAtMilliseconds,
            failureReason: copyOptional(&self.failureReason),
        }
    }
}

/// The record of a finished package.
#[derive(Debug)]
pub struct ClientPackageArtifact {
    pub id: u128,
    pub applicationId: String,
    pub applicationName: String,
    pub createdAtMilliseconds: u64,
    pub fileName: String,
    pub sizeBytes: u64,
    pub sha256: String,
}

/// The mathematical value of a record.
pub struct ArtifactView {
    pub id: u128,
    pub applicationId: Seq<char>,
    pub applicationName: Seq<char>,
    pub createdAtMilliseconds: u64,
    pub fileName: Seq<char>,
    pub sizeBytes: u64,
    pub sha256: Seq<char>,
}

impl View for ClientPackageArtifact {
    type V = ArtifactView;

    open spec fn view(&self) -> ArtifactView {
        ArtifactView {
            id: self.id,
            applicationId: self.applicationId@,
            applicationName: self.applicationName@,
            createdAtMilliseconds: self.createdAtMilliseconds,
            fileName: self.fileName@,
            sizeBytes: self.sizeBytes,
            sha256: self.sha256@,
        }
    }
}

impl ClientPackageArtifact {
    /// An independent copy.
    pub fn copied(&self) -> (result: ClientPackageArtifact)
        ensures
            result@ == self@,
    {
        ClientPackageArtifact {
            id: self.id,
            applicationId: copyText(self.applicationId.as_str()),
            applicationName: copyText(self.applicationName.as_str()),
            createdAtMilliseconds: self.createdAtMilliseconds,
            fileName: copyText(self.fileName.as_str()),
            sizeBytes: self.sizeBytes,
            sha256: copyText(self.sha256.as_str()),
        }
    }
}

/// The values of records.
pub open spec fn artifactViews(artifacts: Seq<ClientPackageArtifact>) -> Seq<ArtifactView> {
    artifacts.map_values(|artifact: ClientPackageArtifact| artifact@)
}

/// Independent copies of records.
pub fn copyArtifacts(artifacts: &Vec<ClientPackageArtifact>) -> (result: Vec<ClientPackageArtifact>)
    ensures
        artifactViews(result@) == artifactViews(artifacts@),
{
    let mut result: Vec<ClientPackageArtifact> = Vec::new();
    let mut i: usize = 0;
    while i < artifacts.len()
        invariant
            i <= artifacts.len(),
            artifactViews(result@) == artifactViews(artifacts@).take(i as int),
        decreases artifacts.len() - i,
    {
        let ghost before = result@;
        result.push(artifacts[i].copied());
        i += 1;
        assert(artifactViews(result@) == artifactViews(before).push(artifacts@[i - 1]@));
        assert(artifactViews(result@) == artifactViews(artifacts@).take(i as int));
    }
    assert(artifactViews(artifacts@).take(i as int) == artifactViews(artifacts@));
    result
}

/// What clients of the control API may see.
#[derive(Debug)]
pub struct ClientPackageSnapshot {
    pub activeJob: Option<ClientPackageJob>,
    pub packages: Vec<ClientPackageArtifact>,
}

/// The jobs and records of the service, newest record first, and whether an operation is under
/// way.
#[derive(Debug)]
pub struct ClientPackageState {
    pub activeJob: Option<ClientPackageJob>,
    pub packages: Vec<ClientPackageArtifact>,
    pub operationActive: bool,
}

/// The mathematical value of the state.
pub struct PackagesView {
    pub activeJob: Option<JobView>,
    pub packages: Seq<ArtifactView>,
    pub operationActive: bool,
}

/// The value of an optional job.
pub open spec fn jobView(job: Option<ClientPackageJob>) -> Option<JobView> {
    match job {
        Some(job) => Some(job@),
        None => None,
    }
}

impl View for ClientPackageState {
    type V = PackagesView;

    open spec fn view(&self) -> PackagesView {
        PackagesView {
            activeJob: jobView(self.activeJob),
            packages: artifactViews(self.packages@),
            operationActive: self.operationActive,
        }
    }
}

// ---------------------------------------------------------------------------
// Stored records
// ---------------------------------------------------------------------------

/// The lower-case hexadecimal digits.
pub open spec fn isLowerHex(c: char) -> bool {
    ('0' <= c && c <= '9') || ('a' <= c && c <= 'f')
}

/// Sixty-four lower-case hexadecimal digits.
pub open spec fn isDigestText(text: Seq<char>) -> bool {
    byteLength(text) == 64 && forall|i: int| 0 <= i < text.len() ==> isLowerHex(#[trigger] text[i])
}

/// Why a stored record cannot be trusted, if so.
pub open spec fn storedProblem(artifact: ArtifactView) -> Option<Seq<char>> {
    if artifact.fileName != packageFileNameOf(artifact.id) || !validApplicationId(
        artifact.applicationId,
    ) || !validApplicationName(artifact.applicationName) {
        Some("客户端产物元数据标识不匹配："@ + canonicalForm(artifact.id))
    } else if artifact.sizeBytes == 0 || !isDigestText(artifact.sha256) {
        Some("客户端生成记录摘要无效："@ + canonicalForm(artifact.id))
    } else {
        None
    }
}

fn isDigest(text: &str) -> (result: bool)
    ensures
        result == isDigestText(text@),
{
    if byteLen(text) != 64 {
        return false;
    }
    let chars = charsOf(text);
    let mut i: usize = 0;
    while i < chars.len()
        invariant
            i <= chars.len(),
            chars@ == text@,
            forall|k: int| 0 <= k < i ==> isLowerHex(#[trigger] text@[k]),
        decreases chars.len() - i,
    {
        let c = chars[i];
        if !((c >= '0' && c <= '9') || (c >= 'a' && c <= 'f')) {
            assert(!isLowerHex(text@[i as int]));
            return false;
        }
        i += 1;
    }
    true
}

/// Checks a stored record: its identity first, then its size and digest.
pub fn validateStoredArtifact(artifact: &ClientPackageArtifact) -> (result: Result<(), String>)
    ensures
        match result {
            Ok(_) => storedProblem(artifact@) is None,
            Err(reason) => storedProblem(artifact@) == Some(reason@),
        },
{
    let expected = packageFileName(artifact.id);
    if !equalText(artifact.fileName.as_str(), expected.as_str()) || !isValidApplicationId(
        artifact.applicationId.as_str(),
    ) || !isValidApplicationName(artifact.applicationName.as_str()) {
        return Err(
            concatText("客户端产物元数据标识不匹配：", canonicalText(artifact.id).as_str()),
        );
    }
    if artifact.sizeBytes == 0 || !isDigest(artifact.sha256.as_str()) {
        return Err(concatText("客户端生成记录摘要无效：", canonicalText(artifact.id).as_str()));
    }
    Ok(())
}

/// The first problem among stored records, if any.
pub open spec fn firstProblem(artifacts: Seq<ArtifactView>) -> Option<Seq<char>>
    decreases artifacts.len(),
{
    if artifacts.len() == 0 {
        None
    } else {
        match firstProblem(artifacts.drop_last()) {
            Some(reason) => Some(reason),
            None => storedProblem(artifacts.last()),
        }
    }
}

/// The creation times of records.
pub open spec fn recordTimes(artifacts: Seq<ArtifactView>) -> Seq<u64> {
    artifacts.map_values(|artifact: ArtifactView| artifact.createdAtMilliseconds)
}

/// The positions of the records that are kept at start: the newest ten, newest first.
pub open spec fn keptRecords(artifacts: Seq<ArtifactView>) -> Seq<int> {
    let order = largestFirst(recordTimes(artifacts), artifacts.len() as int);
    if order.len() > maximumRetainedPackages {
        order.take(maximumRetainedPackages as int)
    } else {
        order
    }
}

/// The records at given positions.
pub open spec fn recordsAt(artifacts: Seq<ArtifactView>, order: Seq<int>) -> Seq<ArtifactView> {
    order.map_values(|i: int| artifacts[i])
}

/// Restores the records that were stored, or reports the first that cannot be trusted.
pub fn loadArtifacts(artifacts: &Vec<ClientPackageArtifact>) -> (result: Result<
    ClientPackageState,
    String,
>)
    ensures
        match result {
            Ok(state) => {
                &&& firstProblem(artifactViews(artifacts@)) is None
                &&& state@.activeJob is None
                &&& !state@.operationActive
                &&& state@.packages == recordsAt(
                    artifactViews(artifacts@),
                    keptRecords(artifactViews(artifacts@)),
                )
            },
            Err(reason) => firstProblem(artifactViews(artifacts@)) == Some(reason@),
        },
{
    let ghost all = artifactViews(artifacts@);
    let mut times: Vec<u64> = Vec::new();
    let mut i: usize = 0;
    assert(all.take(0).len() == 0);
    while i < artifacts.len()
        invariant
            i <= artifacts.len(),
            all == artifactViews(artifacts@),
            times@ == recordTimes(all).take(i as int),
            firstProblem(all.take(i as int)) is None,
        decreases artifacts.len() - i,
    {
        assert(all.take(i + 1).drop_last() == all.take(i as int));
        assert(all.take(i + 1).last() == artifacts@[i as int]@);
        match validateStoredArtifact(&artifacts[i]) {
            Ok(_) => {},
            Err(reason) => {
                proof {
                    lemmaFirstProblem(all, i + 1);
                }
                return Err(reason);
            },
        }
        times.push(artifacts[i].createdAtMilliseconds);
        i += 1;
        assert(times@ == recordTimes(all).take(i as int));
    }
    assert(all.take(i as int) == all);
    assert(times@ == recordTimes(all));
    let order = orderLargestFirst(&times);
    let count: usize = if order.len() > maximumRetainedPackages {
        maximumRetainedPackages
    } else {
        order.len()
    };
    let ghost kept = keptRecords(all);
    assert(kept == positions(order@).take(count as int));
    let mut packages: Vec<ClientPackageArtifact> = Vec::new();
    let mut k: usize = 0;
    while k < count
        invariant
            k <= count <= order.len(),
            all == artifactViews(artifacts@),
            forall|j: int| 0 <= j < order@.len() ==> order@[j] < artifacts@.len(),
            kept == positions(order@).take(count as int),
            artifactViews(packages@) == recordsAt(all, kept).take(k as int),
        decreases count - k,
    {
        let ghost before = packages@;
        packages.push(artifacts[order[k]].copied());
        assert(artifactViews(packages@) == artifactViews(before).push(
            artifacts@[order@[k as int] as int]@,
        ));
        assert(kept[k as int] == order@[k as int]);
        k += 1;
        assert(artifactViews(packages@) == recordsAt(all, kept).take(k as int));
    }
    assert(recordsAt(all, kept).take(k as int) == recordsAt(all, kept));
    Ok(ClientPackageState { activeJob: None, packages, operationActive: false })
}

proof fn lemmaFirstProblem(artifacts: Seq<ArtifactView>, upTo: int)
    requires
        0 <= upTo <= artifacts.len(),
        firstProblem(artifacts.take(upTo)) is Some,
    ensures
        firstProblem(artifacts) == firstProblem(artifacts.take(upTo)),
    decreases artifacts.len() - upTo,
{
    if upTo == artifacts.len() {
        assert(artifacts.take(upTo) == artifacts);
    } else {
        assert(artifacts.take(upTo + 1).drop_last() == artifacts.take(upTo));
        lemmaFirstProblem(artifacts, upTo + 1);
    }
}

/// At start at most ten records are kept, and none that was dropped is newer than one that was
/// kept.
pub proof fn lawKeptRecords(artifacts: Seq<ArtifactView>)
    ensures
        keptRecords(artifacts).len() <= maximumRetainedPackages,
        artifacts.len() <= maximumRetainedPackages ==> keptRecords(artifacts).len()
            == artifacts.len(),
        forall|x: int|
            #[trigger] keptRecords(artifacts).contains(x) ==> 0 <= x < artifacts.len(),
        forall|x: int, y: int|
            #![trigger keptRecords(artifacts).contains(x), artifacts[y]]
            keptRecords(artifacts).contains(x) && 0 <= y < artifacts.len()
                && !keptRecords(artifacts).contains(y) ==> artifacts[x].createdAtMilliseconds
                >= artifacts[y].createdAtMilliseconds,
{
    let times = recordTimes(artifacts);
    let order = largestFirst(times, artifacts.len() as int);
    let kept = keptRecords(artifacts);
    lawLargestFirst(times, artifacts.len() as int);
    assert forall|x: int| #[trigger] kept.contains(x) implies 0 <= x < artifacts.len() by {
        let a = choose|a: int| 0 <= a < kept.len() && kept[a] == x;
        assert(order[a] == x);
        assert(order.contains(x));
    }
    assert forall|x: int, y: int|
        #![trigger kept.contains(x), artifacts[y]]
        kept.contains(x) && 0 <= y < artifacts.len() && !kept.contains(
            y,
        ) implies artifacts[x].createdAtMilliseconds >= artifacts[y].createdAtMilliseconds by {
        let a = choose|a: int| 0 <= a < kept.len() && kept[a] == x;
        assert(order[a] == x);
        assert(order.contains(x) && order.contains(y));
        let b = choose|b: int| 0 <= b < order.len() && order[b] == y;
        if b < kept.len() {
            assert(kept[b] == y);
        }
        assert(a < b);
        assert(times[order[a]] >= times[order[b]]);
    }
}

// ---------------------------------------------------------------------------
// Jobs
// ---------------------------------------------------------------------------

/// Why a package cannot be handed out.
#[derive(Clone, Copy, Debug, PartialEq, Eq, Structural)]
pub enum ClientPackageBuildError {
    /// Another operation is under way.
    Busy,
    /// The build did not succeed.
    Failed,
}

/// The job that a request starts; what it leaves open is picked from the job's identifier.
pub open spec fn startedJob(
    id: u128,
    nodeHost: Seq<char>,
    nodePort: u16,
    applicationId: Option<Seq<char>>,
    applicationName: Option<Seq<char>>,
    now: u64,
) -> JobView {
    JobView {
        id,
        stage: ClientPackageStage::Preparing,
        applicationId: match applicationId {
            Some(text) => text,
            None => applicationIdOf(identityDigest(packageLabel(), id)),
        },
        applicationName: match applicationName {
            Some(text) => text,
            None => applicationNameOf(identityDigest(nameLabel(), id)),
        },
        nodeHost,
        nodePort,
        startedAtMilliseconds: now,
        failureReason: None,
    }
}

/// The state with a job's stage changed, if that job is the current one.
pub open spec fn withStage(
    state: PackagesView,
    id: u128,
    stage: ClientPackageStage,
) -> PackagesView {
    match state.activeJob {
        Some(job) => if job.id == id {
            PackagesView { activeJob: Some(JobView { stage, ..job }), ..state }
        } else {
            state
        },
        None => state,
    }
}

/// The state with the current job failed for a reason.
pub open spec fn withFailure(state: PackagesView, reason: Seq<char>) -> PackagesView {
    match state.activeJob {
        Some(job) => PackagesView {
            activeJob: Some(
                JobView {
                    stage: ClientPackageStage::Failed,
                    failureReason: Some(reason),
                    ..job
                },
            ),
            ..state
        },
        None => state,
    }
}

/// The identifiers of records.
pub open spec fn recordIds(artifacts: Seq<ArtifactView>) -> Seq<u128> {
    artifacts.map_values(|artifact: ArtifactView| artifact.id)
}

/// The records that make room for one more: those past the ninth.
pub open spec fn staleIds(artifacts: Seq<ArtifactView>) -> Seq<u128> {
    if artifacts.len() > maximumRetainedPackages - 1 {
        recordIds(artifacts.skip(maximumRetainedPackages - 1))
    } else {
        Seq::empty()
    }
}

/// The records whose identifier is not in a list, in order.
pub open spec fn withoutIds(artifacts: Seq<ArtifactView>, ids: Seq<u128>) -> Seq<ArtifactView>
    decreases artifacts.len(),
{
    if artifacts.len() == 0 {
        Seq::empty()
    } else {
        let before = withoutIds(artifacts.drop_last(), ids);
        if ids.contains(artifacts.last().id) {
            before
        } else {
            before.push(artifacts.last())
        }
    }
}

/// The state with a record added in front and the stale ones gone.
pub open spec fn withRecord(state: PackagesView, artifact: ArtifactView) -> PackagesView {
    withStage(
        PackagesView {
            packages: seq![artifact] + withoutIds(state.packages, staleIds(state.packages)),
            ..state
        },
        artifact.id,
        ClientPackageStage::Ready,
    )
}

/// The public reasons of a failed job. They are fixed texts: nothing of a path or of a process's
/// output reaches clients.
pub const clientPackageBuildFailureReason: &'static str =
    "客户端生成失败，请检查节点、规则集和打包器状态";

pub const clientPackageProcessBlockedReason: &'static str =
    "客户端打包器退出状态无法确认，已阻止后续生成，请重启服务完成回收";

pub const clientPackageRecordFailureReason: &'static str = "客户端记录提交失败，临时产物已回收";

pub const clientPackageCleanupFailureReason: &'static str =
    "临时客户端清理失败，服务重启时将继续回收";

/// How a build ended before its record could be handed out.
#[derive(Clone, Copy, Debug, PartialEq, Eq, Structural)]
pub enum BuildFailure {
    /// The packager failed; whether its process is known to have exited.
    Run { processExited: bool },
    /// The package was built and its record could not be committed.
    Record,
}

/// The state after a failed build. The operation ends at once when the packager has exited, never
/// when its exit is unknown, and with the removal of the package when only the record failed.
pub open spec fn afterFailedBuild(state: PackagesView, failure: BuildFailure) -> PackagesView {
    match failure {
        BuildFailure::Run { processExited } => PackagesView {
            operationActive: !processExited,
            ..withFailure(
                state,
                if processExited {
                    clientPackageBuildFailureReason@
                } else {
                    clientPackageProcessBlockedReason@
                },
            )
        },
        BuildFailure::Record => withFailure(state, clientPackageRecordFailureReason@),
    }
}

/// What follows an attempt to remove a temporary package.
#[derive(Clone, Copy, Debug, PartialEq, Eq, Structural)]
pub enum CleanupStep {
    /// The package is gone.
    Done,
    /// Try again after a pause.
    Retry,
    /// Leave the package to the next start.
    GiveUp,
}

/// Decides what follows the given attempt, counted from one. There is always one attempt.
pub fn retryTemporaryPackageCleanup(attempt: usize, maximumAttempts: usize, removed: bool) -> (result:
    CleanupStep)
    ensures
        result == if removed {
            CleanupStep::Done
        } else if attempt < maximumAttempts {
            CleanupStep::Retry
        } else {
            CleanupStep::GiveUp
        },
{
    if removed {
        CleanupStep::Done
    } else if attempt < maximumAttempts {
        CleanupStep::Retry
    } else {
        CleanupStep::GiveUp
    }
}

/// The state once a temporary package is gone or given up: the operation ends either way.
pub open spec fn afterCleanup(state: PackagesView, removed: bool) -> PackagesView {
    PackagesView {
        operationActive: false,
        ..if removed {
            state
        } else {
            withFailure(state, clientPackageCleanupFailureReason@)
        }
    }
}

impl ClientPackageState {
    /// What clients may see now.
    pub fn snapshot(&self) -> (result: ClientPackageSnapshot)
        ensures
            jobView(result.activeJob) == self@.activeJob,
            artifactViews(result.packages@) == self@.packages,
    {
        let activeJob = match &self.activeJob {
            Some(job) => Some(job.copied()),
            None => None,
        };
        ClientPackageSnapshot { activeJob, packages: copyArtifacts(&self.packages) }
    }

    /// Starts a job, unless an operation is under way.
    pub fn buildForDownload(
        &mut self,
        id: u128,
        nodeHost: String,
        nodePort: u16,
        applicationId: &Option<String>,
        applicationName: &Option<String>,
        now: u64,
    ) -> (result: Result<(), ClientPackageBuildError>)
        ensures
            result == if old(self)@.operationActive {
                Err::<(), ClientPackageBuildError>(ClientPackageBuildError::Busy)
            } else {
                Ok(())
            },
            final(self)@ == if old(self)@.operationActive {
                old(self)@
            } else {
                PackagesView {
                    activeJob: Some(
                        startedJob(
                            id,
                            nodeHost@,
                            nodePort,
                            optionalView(*applicationId),
                            optionalView(*applicationName),
                            now,
                        ),
                    ),
                    packages: old(self)@.packages,
                    operationActive: true,
                }
            },
    {
        if self.operationActive {
            return Err(ClientPackageBuildError::Busy);
        }
        let chosenId = match applicationId {
            Some(text) => copyText(text.as_str()),
            None => randomApplicationId(id),
        };
        let chosenName = match applicationName {
            Some(text) => copyText(text.as_str()),
            None => randomApplicationName(id),
        };
        self.operationActive = true;
        self.activeJob = Some(
            ClientPackageJob {
                id,
                stage: ClientPackageStage::Preparing,
                applicationId: chosenId,
                applicationName: chosenName,
                nodeHost,
                nodePort,
                startedAtMilliseconds: now,
                failureReason: None,
            },
        );
        Ok(())
    }

    /// Starts a job under a fresh identifier, unless an operation is under way.
    pub fn beginBuild(
        &mut self,
        nodeHost: String,
        nodePort: u16,
        applicationId: &Option<String>,
        applicationName: &Option<String>,
        now: u64,
    ) -> (result: Result<u128, ClientPackageBuildError>)
        ensures
            match result {
                Ok(id) => !old(self)@.operationActive && isRandomIdentifier(id) && final(self)@ == (
                PackagesView {
                    activeJob: Some(
                        startedJob(
                            id,
                            nodeHost@,
                            nodePort,
                            optionalView(*applicationId),
                            optionalView(*applicationName),
                            now,
                        ),
                    ),
                    packages: old(self)@.packages,
                    operationActive: true,
                }),
                Err(error) => old(self)@.operationActive && error == ClientPackageBuildError::Busy
                    && final(self)@ == old(self)@,
            },
    {
        let id = newIdentifier();
        match self.buildForDownload(id, nodeHost, nodePort, applicationId, applicationName, now) {
            Ok(()) => Ok(id),
            Err(error) => Err(error),
        }
    }

    /// Moves the current job to a stage; a job that is no longer current changes nothing.
    pub fn setStage(&mut self, id: u128, stage: ClientPackageStage)
        ensures
            final(self)@ == withStage(old(self)@, id, stage),
    {
        match self.activeJob.take() {
            Some(job) => {
                if job.id == id {
                    self.activeJob = Some(ClientPackageJob { stage, ..job });
                } else {
                    self.activeJob = Some(job);
                }
            },
            None => {},
        }
    }

    /// The records whose files are removed before one more is committed.
    pub fn staleRecords(&self) -> (result: Vec<u128>)
        ensures
            result@ == staleIds(self@.packages),
    {
        let mut ids: Vec<u128> = Vec::new();
        let ghost all = self@.packages;
        if self.packages.len() > maximumRetainedPackages - 1 {
            let mut i: usize = maximumRetainedPackages - 1;
            while i < self.packages.len()
                invariant
                    maximumRetainedPackages - 1 <= i <= self.packages.len(),
                    all == artifactViews(self.packages@),
                    ids@ == staleIds(all).take(i - (maximumRetainedPackages - 1)),
                decreases self.packages.len() - i,
            {
                ids.push(self.packages[i].id);
                i += 1;
                assert(ids@ == staleIds(all).take(i - (maximumRetainedPackages - 1)));
            }
            assert(ids@ == staleIds(all));
        }
        ids
    }

    /// Commits the record of a package, once the files of the stale records are gone.
    pub fn complete(&mut self, artifact: ClientPackageArtifact)
        ensures
            final(self)@ == withRecord(old(self)@, artifact@),
    {
        let ids = self.staleRecords();
        let ghost all = self@.packages;
        let mut packages: Vec<ClientPackageArtifact> = Vec::new();
        let id: u128 = artifact.id;
        let ghost added = artifact@;
        packages.push(artifact);
        let mut i: usize = 0;
        assert(artifactViews(packages@) == seq![added] + withoutIds(all.take(0), ids@));
        while i < self.packages.len()
            invariant
                i <= self.packages.len(),
                all == artifactViews(self.packages@),
                artifactViews(packages@) == seq![added] + withoutIds(all.take(i as int), ids@),
            decreases self.packages.len() - i,
        {
            assert(all.take(i + 1).drop_last() == all.take(i as int));
            assert(all.take(i + 1).last() == self.packages@[i as int]@);
            if !containsId(&ids, self.packages[i].id) {
                let ghost before = packages@;
                packages.push(self.packages[i].copied());
                assert(artifactViews(packages@) == artifactViews(before).push(
                    self.packages@[i as int]@,
                ));
                assert(artifactViews(packages@) == seq![added] + withoutIds(all.take(i + 1), ids@));
            }
            i += 1;
        }
        assert(all.take(i as int) == all);
        self.packages = packages;
        self.setStage(id, ClientPackageStage::Ready);
    }

    /// Marks the current job as failed.
    pub fn fail(&mut self, reason: &str)
        ensures
            final(self)@ == withFailure(old(self)@, reason@),
    {
        match self.activeJob.take() {
            Some(job) => {
                self.activeJob = Some(
                    ClientPackageJob {
                        stage: ClientPackageStage::Failed,
                        failureReason: Some(copyText(reason)),
                        ..job
                    },
                );
            },
            None => {},
        }
    }

    /// Ends a build that failed.
    pub fn finishFailedOperation(&mut self, failure: BuildFailure)
        ensures
            final(self)@ == afterFailedBuild(old(self)@, failure),
    {
        match failure {
            BuildFailure::Run { processExited } => {
                if processExited {
                    self.fail(clientPackageBuildFailureReason);
                } else {
                    self.fail(clientPackageProcessBlockedReason);
                }
                self.operationActive = !processExited;
            },
            BuildFailure::Record => {
                self.fail(clientPackageRecordFailureReason);
            },
        }
    }

    /// Ends the operation of a temporary package that is gone or given up.
    pub fn finishCleanup(&mut self, removed: bool)
        ensures
            final(self)@ == afterCleanup(old(self)@, removed),
    {
        if !removed {
            self.fail(clientPackageCleanupFailureReason);
        }
        self.operationActive = false;
    }
}

fn containsId(ids: &Vec<u128>, id: u128) -> (result: bool)
    ensures
        result == ids@.contains(id),
{
    let mut i: usize = 0;
    while i < ids.len()
        invariant
            i <= ids.len(),
            forall|k: int| 0 <= k < i ==> ids@[k] != id,
        decreases ids.len() - i,
    {
        if ids[i] == id {
            assert(ids@[i as int] == id);
            return true;
        }
        i += 1;
    }
    false
}

proof fn lemmaWithoutIds(artifacts: Seq<ArtifactView>, ids: Seq<u128>, keep: int)
    requires
        0 <= keep <= artifacts.len(),
        forall|i: int| keep <= i < artifacts.len() ==> ids.contains(#[trigger] artifacts[i].id),
    ensures
        withoutIds(artifacts, ids).len() <= keep,
    decreases artifacts.len(),
{
    if artifacts.len() > 0 {
        let before = artifacts.drop_last();
        if artifacts.len() > keep {
            assert(ids.contains(artifacts[artifacts.len() - 1].id));
            assert forall|i: int| keep <= i < before.len() implies ids.contains(
                #[trigger] before[i].id,
            ) by {
                assert(before[i] == artifacts[i]);
            }
            lemmaWithoutIds(before, ids, keep);
        } else {
            lemmaWithoutIds(before, ids, keep - 1);
        }
    }
}

/// Committing a record never keeps more than ten, puts the new one first and ends the job of that
/// record; no other job changes.
pub proof fn lawHistoryIsBounded(state: PackagesView, artifact: ArtifactView)
    ensures
        withRecord(state, artifact).packages.len() <= maximumRetainedPackages,
        withRecord(state, artifact).packages[0] == artifact,
        withRecord(state, artifact).operationActive == state.operationActive,
        state.activeJob matches Some(job) ==> withRecord(state, artifact).activeJob == Some(
            if job.id == artifact.id {
                JobView { stage: ClientPackageStage::Ready, ..job }
            } else {
                job
            },
        ),
{
    let all = state.packages;
    let ids = staleIds(all);
    let keep: int = if all.len() > maximumRetainedPackages - 1 {
        maximumRetainedPackages - 1
    } else {
        all.len() as int
    };
    assert forall|i: int| keep <= i < all.len() implies ids.contains(#[trigger] all[i].id) by {
        assert(ids[i - keep] == all[i].id);
    }
    lemmaWithoutIds(all, ids, keep);
}

/// While an operation is under way no other can start, and an operation whose packager may still
/// run stays under way: only a removed or abandoned temporary package could end it, and a failed
/// run leaves none.
pub proof fn lawOneOperationAtATime(state: PackagesView)
    ensures
        !afterFailedBuild(state, BuildFailure::Run { processExited: true }).operationActive,
        afterFailedBuild(state, BuildFailure::Run { processExited: false }).operationActive,
        afterFailedBuild(state, BuildFailure::Record).operationActive == state.operationActive,
        forall|id: u128, stage: ClientPackageStage|
            (#[trigger] withStage(state, id, stage)).operationActive == state.operationActive,
        forall|artifact: ArtifactView|
            (#[trigger] withRecord(state, artifact)).operationActive == state.operationActive,
        forall|removed: bool| !(#[trigger] afterCleanup(state, removed)).operationActive,
{
}

// ---------------------------------------------------------------------------
// Verification of a package
// ---------------------------------------------------------------------------

/// The record of a package that was checked.
pub open spec fn builtArtifact(job: JobView, bytes: Seq<u8>, digest: Seq<u8>, now: u64) -> ArtifactView {
    ArtifactView {
        id: job.id,
        applicationId: job.applicationId,
        applicationName: job.applicationName,
        createdAtMilliseconds: now,
        fileName: packageFileNameOf(job.id),
        sizeBytes: bytes.len() as u64,
        sha256: hexText(digest),
    }
}

/// Checks what the packager reported against the file it left and makes the record; `None` when
/// they disagree.
pub fn buildClientPackage(
    job: &ClientPackageJob,
    reportedSize: u64,
    reportedSha256: &str,
    bytes: &Vec<u8>,
    now: u64,
) -> (result: Option<ClientPackageArtifact>)
    ensures
        match result {
            Some(artifact) => {
                &&& reportedSize == bytes@.len()
                &&& reportedSha256@ == hexText(sha256(bytes@))
                &&& artifact@ == builtArtifact(job@, bytes@, sha256(bytes@), now)
                &&& artifact@.sha256.len() == 64
            },
            None => reportedSize != bytes@.len() || reportedSha256@ != hexText(sha256(bytes@)),
        },
{
    let digestBytes = digestSha256(bytes.as_slice());
    let digest = encodeHex(digestBytes.as_slice());
    proof {
        lemmaHexText(digestBytes@);
    }
    if reportedSize != bytes.len() as u64 || !equalText(reportedSha256, digest.as_str()) {
        return None;
    }
    Some(
        ClientPackageArtifact {
            id: job.id,
            applicationId: copyText(job.applicationId.as_str()),
            applicationName: copyText(job.applicationName.as_str()),
            createdAtMilliseconds: now,
            fileName: packageFileName(job.id),
            sizeBytes: bytes.len() as u64,
            sha256: digest,
        },
    )
}

proof fn lemmaHexText(bytes: Seq<u8>)
    ensures
        hexText(bytes).len() == 2 * bytes.len(),
        forall|i: int| 0 <= i < hexText(bytes).len() ==> isLowerHex(#[trigger] hexText(bytes)[i]),
    decreases bytes.len(),
{
    if bytes.len() > 0 {
        lemmaHexText(bytes.drop_last());
        let high = bytes.last() as int / 16;
        let low = bytes.last() as int % 16;
        assert(isLowerHex(hexDigit(high)) && isLowerHex(hexDigit(low)));
    }
}

/// The record of a package that is not empty and has a valid identity is accepted again at the
/// next start.
pub proof fn lawBuiltRecordIsStorable(job: JobView, bytes: Seq<u8>, digest: Seq<u8>, now: u64)
    requires
        0 < bytes.len() <= u64::MAX,
        digest.len() == 32,
        validApplicationId(job.applicationId),
        validApplicationName(job.applicationName),
    ensures
        storedProblem(builtArtifact(job, bytes, digest, now)) is None,
{
    lemmaHexText(digest);
    let text = hexText(digest);
    assert(is_ascii_chars(text)) by {
        assert forall|i: int| 0 <= i < text.len() implies (#[trigger] text[i] as u32) <= 127 by {
            assert(isLowerHex(text[i]));
        }
    }
    is_ascii_chars_encode_utf8(text);
}

/// A new record stands in front, and no other goes while there are fewer than ten: the history is the records
/// in the order of their making, and only what no longer fits is forgotten.
pub proof fn lawRecentRecordsStay(state: PackagesView, artifact: ArtifactView, kept: ArtifactView)
    ensures
        state.packages.len() < 10 ==> withRecord(state, artifact).packages == seq![artifact]
            + state.packages,
        state.packages.take(if state.packages.len() < 9 {
            state.packages.len() as int
        } else {
            9
        }).contains(kept) && !recordIds(state.packages.skip(9)).contains(kept.id) ==> withRecord(
            state,
            artifact,
        ).packages.contains(kept),
{
    let stale = staleIds(state.packages);
    let others = withoutIds(state.packages, stale);
    if state.packages.len() < 10 {
        lemmaNoIdsGone(state.packages);
    }
    let few = state.packages.take(if state.packages.len() < 9 {
        state.packages.len() as int
    } else {
        9
    });
    if few.contains(kept) && !recordIds(state.packages.skip(9)).contains(kept.id) {
        let k = choose|k: int| 0 <= k < few.len() && few[k] == kept;
        assert(state.packages[k] == kept);
        lemmaKeptWithoutIds(state.packages, stale, kept);
        let m = choose|m: int| 0 <= m < others.len() && others[m] == kept;
        assert(withRecord(state, artifact).packages[m + 1] == kept);
    }
}

proof fn lemmaNoIdsGone(artifacts: Seq<ArtifactView>)
    ensures
        withoutIds(artifacts, Seq::empty()) == artifacts,
    decreases artifacts.len(),
{
    if artifacts.len() > 0 {
        lemmaNoIdsGone(artifacts.drop_last());
        assert(artifacts.drop_last().push(artifacts.last()) =~= artifacts);
    } else {
        assert(artifacts =~= Seq::<ArtifactView>::empty());
    }
}

proof fn lemmaKeptWithoutIds(artifacts: Seq<ArtifactView>, ids: Seq<u128>, kept: ArtifactView)
    requires
        artifacts.contains(kept),
        !ids.contains(kept.id),
    ensures
        withoutIds(artifacts, ids).contains(kept),
    decreases artifacts.len(),
{
    let all = withoutIds(artifacts, ids);
    if artifacts.last() == kept {
        assert(all[all.len() - 1] == kept);
    } else {
        let shorter = artifacts.drop_last();
        let k = choose|k: int| 0 <= k < artifacts.len() && artifacts[k] == kept;
        assert(shorter[k] == kept);
        lemmaKeptWithoutIds(shorter, ids, kept);
        let before = withoutIds(shorter, ids);
        let m = choose|m: int| 0 <= m < before.len() && before[m] == kept;
        assert(all[m] == kept);
    }
}

/// The records that are read at a start are shown the latest first.
pub proof fn lawLatestRecordIsShownFirst(artifacts: Seq<ArtifactView>, i: int, j: int)
    requires
        0 <= i < j < keptRecords(artifacts).len(),
    ensures
        recordsAt(artifacts, keptRecords(artifacts))[i].createdAtMilliseconds >= recordsAt(
            artifacts,
            keptRecords(artifacts),
        )[j].createdAtMilliseconds,
{
    let times = recordTimes(artifacts);
    let order = largestFirst(times, artifacts.len() as int);
    let kept = keptRecords(artifacts);
    lawLargestFirst(times, artifacts.len() as int);
    assert(kept[i] == order[i] && kept[j] == order[j]);
    assert(order.contains(order[i]) && order.contains(order[j]));
    assert(times[order[i]] == artifacts[order[i]].createdAtMilliseconds);
    assert(times[order[j]] == artifacts[order[j]].createdAtMilliseconds);
}

/// A stored record is accepted exactly where its file, its identity, its size and its digest are whole.
pub proof fn lawWholeRecordIsAccepted(artifact: ArtifactView)
    ensures
        storedProblem(artifact) is None <==> artifact.fileName == packageFileNameOf(artifact.id)
            && validApplicationId(artifact.applicationId) && validApplicationName(
            artifact.applicationName,
        ) && artifact.sizeBytes > 0 && byteLength(artifact.sha256) == 64 && forall|i: int|
            0 <= i < artifact.sha256.len() ==> '0' <= #[trigger] artifact.sha256[i] <= '9' || 'a'
                <= artifact.sha256[i] <= 'f',
{
    if storedProblem(artifact) is None {
        assert forall|i: int| 0 <= i < artifact.sha256.len() implies '0'
            <= #[trigger] artifact.sha256[i] <= '9' || 'a' <= artifact.sha256[i] <= 'f' by {
            assert(isLowerHex(artifact.sha256[i]));
        }
    }
}

/// A job is for the node, the identity and the moment that were asked for; what a client leaves open follows
/// from the job's own identifier.
pub proof fn lawJobIsWhatWasAskedFor(
    id: u128,
    nodeHost: Seq<char>,
    nodePort: u16,
    applicationId: Option<Seq<char>>,
    applicationName: Option<Seq<char>>,
    now: u64,
)
    ensures
        ({
            let job = startedJob(id, nodeHost, nodePort, applicationId, applicationName, now);
            &&& job.id == id && job.nodeHost == nodeHost && job.nodePort == nodePort
            &&& job.startedAtMilliseconds == now && job.failureReason is None
            &&& job.stage == ClientPackageStage::Preparing
            &&& applicationId matches Some(text) ==> job.applicationId == text
            &&& applicationName matches Some(text) ==> job.applicationName == text
            &&& applicationId is None ==> job.applicationId == applicationIdOf(
                identityDigest(packageLabel(), id),
            )
            &&& applicationName is None ==> job.applicationName == applicationNameOf(
                identityDigest(nameLabel(), id),
            )
        }),
{
}

/// A stage belongs to the job that it is told of, and a failure to the job under way; nothing else changes.
pub proof fn lawStageBelongsToItsJob(
    state: PackagesView,
    job: JobView,
    id: u128,
    stage: ClientPackageStage,
    reason: Seq<char>,
)
    requires
        state.activeJob == Some(job),
    ensures
        withStage(state, id, stage).activeJob == Some(
            if job.id == id {
                JobView { stage, ..job }
            } else {
                job
            },
        ),
        withStage(state, id, stage).packages == state.packages,
        withFailure(state, reason).activeJob == Some(
            JobView { stage: ClientPackageStage::Failed, failureReason: Some(reason), ..job },
        ),
        withFailure(state, reason).packages == state.packages,
        afterCleanup(state, true).activeJob == Some(job),
        afterCleanup(state, false).activeJob == Some(
            JobView {
                stage: ClientPackageStage::Failed,
                failureReason: Some(clientPackageCleanupFailureReason@),
                ..job
            },
        ),
        afterFailedBuild(state, BuildFailure::Run { processExited: true }).activeJob == Some(
            JobView {
                stage: ClientPackageStage::Failed,
                failureReason: Some(clientPackageBuildFailureReason@),
                ..job
            },
        ),
        afterFailedBuild(state, BuildFailure::Run { processExited: false }).activeJob == Some(
            JobView {
                stage: ClientPackageStage::Failed,
                failureReason: Some(clientPackageProcessBlockedReason@),
                ..job
            },
        ),
{
}

/// The record of a package tells its bytes: their number and their digest, under the identity of its job.
pub proof fn lawRecordTellsItsPackage(job: JobView, bytes: Seq<u8>, digest: Seq<u8>, now: u64)
    requires
        bytes.len() <= u64::MAX,
    ensures
        ({
            let record = builtArtifact(job, bytes, digest, now);
            &&& record.id == job.id && record.applicationId == job.applicationId
            &&& record.applicationName == job.applicationName
            &&& record.sizeBytes == bytes.len() && record.sha256 == hexText(digest)
            &&& record.createdAtMilliseconds == now
            &&& record.fileName == packageFileNameOf(job.id)
        }),
{
}

/// Of the stored packages the first that is wrong is told; where none is, nothing is.
pub proof fn lawFirstWrongPackageIsTold(artifacts: Seq<ArtifactView>, at: int)
    ensures
        0 <= at < artifacts.len() && storedProblem(artifacts[at]) is Some && (forall|i: int|
            0 <= i < at ==> storedProblem(#[trigger] artifacts[i]) is None) ==> firstProblem(artifacts)
            == storedProblem(artifacts[at]),
        (forall|i: int| 0 <= i < artifacts.len() ==> storedProblem(#[trigger] artifacts[i]) is None)
            ==> firstProblem(artifacts) is None,
    decreases artifacts.len(),
{
    if artifacts.len() > 0 {
        let front = artifacts.drop_last();
        lawFirstWrongPackageIsTold(front, at);
        assert forall|i: int| 0 <= i < front.len() implies front[i] == artifacts[i] by {}
    }
}

} // verus!
