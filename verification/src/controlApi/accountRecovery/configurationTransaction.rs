//! Replacing the configuration as one transaction: disk, memory and the running data plane end up
//! on the same side, whatever step fails.

use crate::controlApi::configuration::MultiAccountConfiguration;
use crate::controlApi::httpControl::{detailedError, errorWith, ApiError, ApiErrorView};
use crate::controlApi::serviceState::ServiceState;
use crate::localization::ErrorCode;
use crate::text::{concatText, concatThree, joinTexts, joined, views};
use vstd::prelude::*;

verus! {

/// Which of the two configurations something follows.
#[derive(Clone, Copy, Debug, PartialEq, Eq, Structural)]
pub enum ConfigurationSide {
    Previous,
    Candidate,
}

/// The step that a transaction waits for.
#[derive(Clone, Copy, Debug, PartialEq, Eq, Structural)]
pub enum TransactionStep {
    /// Take the data plane down, silently.
    StopService,
    /// Move the account service to the candidate.
    SwitchAccountService,
    /// Write the candidate to disk.
    Persist,
    /// Start the data plane on the candidate, silently.
    StartCandidate,
    /// Put the candidate into memory and publish it.
    CommitCandidate,
    /// Take down what a failed candidate left, unless the service is stopped.
    StopForRollback,
    /// Write the previous configuration back to disk.
    RestoreFile,
    /// Put the candidate into memory and publish it, since the disk kept it.
    AdoptCandidate,
    /// Start the data plane on the candidate that the disk kept.
    RestartCandidate,
    /// Move the account service back.
    SwitchAccountServiceBack,
    /// Put the previous configuration into memory and publish it.
    RestoreMemory,
    /// Start the data plane on the previous configuration.
    RestartPrevious,
    /// The candidate is in force.
    Succeeded,
    /// The data plane could not be taken down, and nothing was changed.
    Refused,
    /// The transaction failed, and what it changed was restored as far as possible.
    Failed,
}

/// How a step ended.
#[derive(Debug)]
pub enum StepOutcome {
    Done,
    /// The error, and its text for people.
    Error { error: ApiError, message: String },
}

/// A configuration replacement under way.
#[derive(Debug)]
pub struct ConfigurationTransaction {
    pub restartRequired: bool,
    pub accountServiceChanged: bool,
    pub step: TransactionStep,
    pub disk: ConfigurationSide,
    pub memory: ConfigurationSide,
    pub running: Option<ConfigurationSide>,
    pub failure: Option<(ApiError, String)>,
    pub restoreErrors: Vec<String>,
}

/// The mathematical value of a transaction.
pub struct TransactionView {
    pub restartRequired: bool,
    pub accountServiceChanged: bool,
    pub step: TransactionStep,
    pub disk: ConfigurationSide,
    pub memory: ConfigurationSide,
    pub running: Option<ConfigurationSide>,
    pub failure: Option<(ApiErrorView, Seq<char>)>,
    pub restoreErrors: Seq<Seq<char>>,
}

impl View for ConfigurationTransaction {
    type V = TransactionView;

    open spec fn view(&self) -> TransactionView {
        TransactionView {
            restartRequired: self.restartRequired,
            accountServiceChanged: self.accountServiceChanged,
            step: self.step,
            disk: self.disk,
            memory: self.memory,
            running: self.running,
            failure: match self.failure {
                Some(failure) => Some((failure.0@, failure.1@)),
                None => None,
            },
            restoreErrors: views(self.restoreErrors@),
        }
    }
}

/// How a step ended, by value.
pub open spec fn outcomeView(outcome: StepOutcome) -> Option<(ApiErrorView, Seq<char>)> {
    match outcome {
        StepOutcome::Done => None,
        StepOutcome::Error { error, message } => Some((error@, message@)),
    }
}

/// The step that comes once the data plane is down, or need not be.
pub open spec fn afterStop(accountServiceChanged: bool) -> TransactionStep {
    if accountServiceChanged {
        TransactionStep::SwitchAccountService
    } else {
        TransactionStep::Persist
    }
}

/// A transaction that nothing was done of.
pub open spec fn beginningTransaction(
    restartRequired: bool,
    accountServiceChanged: bool,
) -> TransactionView {
    TransactionView {
        restartRequired,
        accountServiceChanged,
        step: if restartRequired {
            TransactionStep::StopService
        } else {
            afterStop(accountServiceChanged)
        },
        disk: ConfigurationSide::Previous,
        memory: ConfigurationSide::Previous,
        running: if restartRequired {
            Some(ConfigurationSide::Previous)
        } else {
            None
        },
        failure: None,
        restoreErrors: Seq::empty(),
    }
}

/// A failed step leads into the rollback.
pub open spec fn rolledBack(t: TransactionView, failure: (ApiErrorView, Seq<char>)) -> TransactionView {
    TransactionView { step: TransactionStep::StopForRollback, failure: Some(failure), ..t }
}

/// One more thing that the rollback could not restore.
pub open spec fn noted(
    t: TransactionView,
    label: Seq<char>,
    error: Option<(ApiErrorView, Seq<char>)>,
) -> TransactionView {
    match error {
        Some(failure) => TransactionView {
            restoreErrors: t.restoreErrors.push(label + failure.1),
            ..t
        },
        None => t,
    }
}

/// The transaction after a step.
pub open spec fn stepped(
    t: TransactionView,
    error: Option<(ApiErrorView, Seq<char>)>,
) -> TransactionView {
    match t.step {
        TransactionStep::StopService => match error {
            Some(failure) => TransactionView {
                step: TransactionStep::Refused,
                running: None,
                failure: Some(failure),
                ..t
            },
            None => TransactionView {
                step: afterStop(t.accountServiceChanged),
                running: None,
                ..t
            },
        },
        TransactionStep::SwitchAccountService => match error {
            Some(failure) => rolledBack(t, failure),
            None => TransactionView { step: TransactionStep::Persist, ..t },
        },
        TransactionStep::Persist => match error {
            Some(failure) => rolledBack(t, failure),
            None => TransactionView {
                disk: ConfigurationSide::Candidate,
                step: if t.restartRequired {
                    TransactionStep::StartCandidate
                } else {
                    TransactionStep::CommitCandidate
                },
                ..t
            },
        },
        TransactionStep::StartCandidate => match error {
            Some(failure) => rolledBack(t, failure),
            None => TransactionView {
                running: Some(ConfigurationSide::Candidate),
                step: TransactionStep::CommitCandidate,
                ..t
            },
        },
        TransactionStep::CommitCandidate => TransactionView {
            memory: ConfigurationSide::Candidate,
            step: TransactionStep::Succeeded,
            ..t
        },
        TransactionStep::StopForRollback => {
            let next = noted(t, "停止候选数据面失败："@, error);
            TransactionView {
                running: None,
                step: if t.disk == ConfigurationSide::Candidate {
                    TransactionStep::RestoreFile
                } else {
                    TransactionStep::SwitchAccountServiceBack
                },
                ..next
            }
        },
        TransactionStep::RestoreFile => match error {
            Some(_) => TransactionView {
                step: TransactionStep::AdoptCandidate,
                ..noted(t, "恢复配置文件失败："@, error)
            },
            None => TransactionView {
                disk: ConfigurationSide::Previous,
                step: TransactionStep::SwitchAccountServiceBack,
                ..t
            },
        },
        TransactionStep::AdoptCandidate => TransactionView {
            memory: ConfigurationSide::Candidate,
            step: if t.restartRequired {
                TransactionStep::RestartCandidate
            } else {
                TransactionStep::Failed
            },
            ..t
        },
        TransactionStep::RestartCandidate => TransactionView {
            running: if error is None { Some(ConfigurationSide::Candidate) } else { None },
            step: TransactionStep::Failed,
            ..noted(t, "恢复候选代理数据面失败："@, error)
        },
        TransactionStep::SwitchAccountServiceBack => TransactionView {
            step: TransactionStep::RestoreMemory,
            ..noted(t, "恢复账号服务失败："@, error)
        },
        TransactionStep::RestoreMemory => TransactionView {
            memory: ConfigurationSide::Previous,
            step: if t.restartRequired {
                TransactionStep::RestartPrevious
            } else {
                TransactionStep::Failed
            },
            ..t
        },
        TransactionStep::RestartPrevious => TransactionView {
            running: if error is None { Some(ConfigurationSide::Previous) } else { None },
            step: TransactionStep::Failed,
            ..noted(t, "恢复代理数据面失败："@, error)
        },
        TransactionStep::Succeeded => t,
        TransactionStep::Refused => t,
        TransactionStep::Failed => t,
    }
}

/// What every reachable transaction keeps.
pub open spec fn transactionValid(t: TransactionView) -> bool {
    &&& t.step != TransactionStep::Succeeded ==> t.step == TransactionStep::StopService || t.step
        == TransactionStep::SwitchAccountService || t.step == TransactionStep::Persist || t.step
        == TransactionStep::StartCandidate || t.step == TransactionStep::CommitCandidate
        || t.failure is Some
    &&& match t.step {
        TransactionStep::StopService => t.disk == ConfigurationSide::Previous && t.memory
            == ConfigurationSide::Previous && t.running != Some(ConfigurationSide::Candidate)
            && t.restoreErrors.len() == 0,
        TransactionStep::SwitchAccountService => t.disk == ConfigurationSide::Previous && t.memory
            == ConfigurationSide::Previous && t.running is None && t.restoreErrors.len() == 0,
        TransactionStep::Persist => t.disk == ConfigurationSide::Previous && t.memory
            == ConfigurationSide::Previous && t.running is None && t.restoreErrors.len() == 0,
        TransactionStep::StartCandidate => t.disk == ConfigurationSide::Candidate && t.memory
            == ConfigurationSide::Previous && t.running is None && t.restartRequired
            && t.restoreErrors.len() == 0,
        TransactionStep::CommitCandidate => t.disk == ConfigurationSide::Candidate && t.memory
            == ConfigurationSide::Previous && t.running != Some(ConfigurationSide::Previous)
            && t.restoreErrors.len() == 0,
        TransactionStep::StopForRollback => t.memory == ConfigurationSide::Previous && t.running
            is None && t.restoreErrors.len() == 0,
        TransactionStep::RestoreFile => t.disk == ConfigurationSide::Candidate && t.memory
            == ConfigurationSide::Previous && t.running is None,
        TransactionStep::AdoptCandidate => t.disk == ConfigurationSide::Candidate && t.running
            is None && t.restoreErrors.len() > 0,
        TransactionStep::RestartCandidate => t.disk == ConfigurationSide::Candidate && t.memory
            == ConfigurationSide::Candidate && t.running is None && t.restoreErrors.len() > 0,
        TransactionStep::SwitchAccountServiceBack => t.disk == ConfigurationSide::Previous
            && t.running is None && t.memory == ConfigurationSide::Previous,
        TransactionStep::RestoreMemory => t.disk == ConfigurationSide::Previous && t.running
            is None,
        TransactionStep::RestartPrevious => t.disk == ConfigurationSide::Previous && t.memory
            == ConfigurationSide::Previous && t.running is None,
        TransactionStep::Succeeded => t.disk == ConfigurationSide::Candidate && t.memory
            == ConfigurationSide::Candidate && t.running != Some(ConfigurationSide::Previous)
            && t.restoreErrors.len() == 0,
        TransactionStep::Refused => t.disk == ConfigurationSide::Previous && t.memory
            == ConfigurationSide::Previous && t.running is None && t.restoreErrors.len() == 0,
        TransactionStep::Failed => {
            &&& t.disk == t.memory
            &&& t.running is Some ==> t.running == Some(t.memory)
            &&& t.disk == ConfigurationSide::Candidate ==> t.restoreErrors.len() > 0
        },
    }
}

/// How many steps a transaction may still take.
pub open spec fn stepsLeft(step: TransactionStep) -> nat {
    match step {
        TransactionStep::StopService => 10,
        TransactionStep::SwitchAccountService => 9,
        TransactionStep::Persist => 8,
        TransactionStep::StartCandidate => 7,
        TransactionStep::CommitCandidate => 1,
        TransactionStep::StopForRollback => 6,
        TransactionStep::RestoreFile => 5,
        TransactionStep::AdoptCandidate => 2,
        TransactionStep::RestartCandidate => 1,
        TransactionStep::SwitchAccountServiceBack => 4,
        TransactionStep::RestoreMemory => 3,
        TransactionStep::RestartPrevious => 2,
        TransactionStep::Succeeded => 0,
        TransactionStep::Refused => 0,
        TransactionStep::Failed => 0,
    }
}

/// Every step keeps the transaction valid and brings its end nearer.
pub proof fn lawTransactionAdvances(t: TransactionView, error: Option<(ApiErrorView, Seq<char>)>)
    requires
        transactionValid(t),
    ensures
        transactionValid(stepped(t, error)),
        stepsLeft(t.step) > 0 ==> stepsLeft(stepped(t, error).step) < stepsLeft(t.step),
        stepsLeft(t.step) == 0 ==> stepped(t, error) == t,
{
}

/// Once a transaction has ended, disk and memory agree and nothing runs on another configuration.
/// Success means that the candidate is in force. Failure means that the previous configuration is,
/// unless the disk could not be restored: then the candidate is, and the answer says so.
pub proof fn lawEndedTransactionIsConsistent(t: TransactionView)
    requires
        transactionValid(t),
        stepsLeft(t.step) == 0,
    ensures
        t.disk == t.memory,
        t.running is Some ==> t.running == Some(t.memory),
        t.step == TransactionStep::Succeeded ==> t.memory == ConfigurationSide::Candidate,
        t.step != TransactionStep::Succeeded && t.restoreErrors.len() == 0 ==> t.memory
            == ConfigurationSide::Previous,
{
}

/// A whole run of outcomes.
pub open spec fn ran(
    t: TransactionView,
    outcomes: Seq<Option<(ApiErrorView, Seq<char>)>>,
) -> TransactionView
    decreases outcomes.len(),
{
    if outcomes.len() == 0 {
        t
    } else {
        ran(stepped(t, outcomes[0]), outcomes.drop_first())
    }
}

/// Any ten outcomes end a transaction, and it ends consistent.
pub proof fn lawTransactionEndsConsistent(
    t: TransactionView,
    outcomes: Seq<Option<(ApiErrorView, Seq<char>)>>,
)
    requires
        transactionValid(t),
        outcomes.len() >= stepsLeft(t.step),
    ensures
        stepsLeft(ran(t, outcomes).step) == 0,
        transactionValid(ran(t, outcomes)),
        ran(t, outcomes).disk == ran(t, outcomes).memory,
    decreases outcomes.len(),
{
    if outcomes.len() > 0 {
        lawTransactionAdvances(t, outcomes[0]);
        lawTransactionEndsConsistent(stepped(t, outcomes[0]), outcomes.drop_first());
    } else {
        lawEndedTransactionIsConsistent(t);
    }
}

/// The error that answers a failed transaction: the original one, and what could not be restored.
pub open spec fn mergedError(
    error: ApiErrorView,
    message: Seq<char>,
    restoreErrors: Seq<Seq<char>>,
) -> ApiErrorView {
    if restoreErrors.len() == 0 {
        error
    } else {
        errorWith(
            error,
            "detail"@,
            message + "; 配置事务恢复失败："@ + joined(restoreErrors, "; "@),
        )
    }
}

/// Answers a failed transaction; status and code are always those of the original error.
pub fn mergeConfigurationTransactionError(
    originalError: ApiError,
    originalMessage: String,
    restoreErrors: &Vec<String>,
) -> (result: ApiError)
    ensures
        result@ == mergedError(originalError@, originalMessage@, views(restoreErrors@)),
        result@.status == originalError@.status,
        result@.code == originalError@.code,
{
    assert(views(restoreErrors@).len() == restoreErrors@.len());
    if restoreErrors.len() == 0 {
        return originalError;
    }
    let restored = joinTexts(restoreErrors, "; ");
    let detail = concatThree(
        originalMessage.as_str(),
        "; 配置事务恢复失败：",
        restored.as_str(),
    );
    originalError.withParam("detail", detail)
}

impl ConfigurationTransaction {
    /// Begins the replacement of a validated configuration. A service that does anything is restarted,
    /// and the account service is moved where its configuration changes.
    pub fn replaceConfiguration(
        service: ServiceState,
        previous: &MultiAccountConfiguration,
        candidate: &MultiAccountConfiguration,
    ) -> (result: ConfigurationTransaction)
        ensures
            transactionValid(result@),
            result@ == beginningTransaction(
                service != ServiceState::Stopped,
                previous@ != candidate@,
            ),
    {
        let restartRequired = service != ServiceState::Stopped;
        let accountServiceChanged = !candidate.sameAs(previous);
        let restoreErrors: Vec<String> = Vec::new();
        assert(views(restoreErrors@) == Seq::<Seq<char>>::empty());
        ConfigurationTransaction {
            restartRequired,
            accountServiceChanged,
            step: if restartRequired {
                TransactionStep::StopService
            } else if accountServiceChanged {
                TransactionStep::SwitchAccountService
            } else {
                TransactionStep::Persist
            },
            disk: ConfigurationSide::Previous,
            memory: ConfigurationSide::Previous,
            running: if restartRequired {
                Some(ConfigurationSide::Previous)
            } else {
                None
            },
            failure: None,
            restoreErrors,
        }
    }

    fn note(&mut self, label: &str, outcome: &StepOutcome)
        ensures
            final(self)@ == noted(old(self)@, label@, outcomeView(*outcome)),
    {
        let ghost before = views(self.restoreErrors@);
        match outcome {
            StepOutcome::Done => {},
            StepOutcome::Error { message, .. } => {
                self.restoreErrors.push(concatText(label, message.as_str()));
                assert(views(self.restoreErrors@) == before.push(label@ + message@));
            },
        }
    }

    /// Takes the outcome of the current step and moves on to the next one.
    pub fn advance(&mut self, outcome: StepOutcome)
        ensures
            final(self)@ == stepped(old(self)@, outcomeView(outcome)),
    {
        let succeeded = match &outcome {
            StepOutcome::Done => true,
            StepOutcome::Error { .. } => false,
        };
        match self.step {
            TransactionStep::StopService => {
                self.running = None;
                match outcome {
                    StepOutcome::Done => {
                        self.step = if self.accountServiceChanged {
                            TransactionStep::SwitchAccountService
                        } else {
                            TransactionStep::Persist
                        };
                    },
                    StepOutcome::Error { error, message } => {
                        self.step = TransactionStep::Refused;
                        self.failure = Some((error, message));
                    },
                }
            },
            TransactionStep::SwitchAccountService => match outcome {
                StepOutcome::Done => {
                    self.step = TransactionStep::Persist;
                },
                StepOutcome::Error { error, message } => {
                    self.step = TransactionStep::StopForRollback;
                    self.failure = Some((error, message));
                },
            },
            TransactionStep::Persist => match outcome {
                StepOutcome::Done => {
                    self.disk = ConfigurationSide::Candidate;
                    self.step = if self.restartRequired {
                        TransactionStep::StartCandidate
                    } else {
                        TransactionStep::CommitCandidate
                    };
                },
                StepOutcome::Error { error, message } => {
                    self.step = TransactionStep::StopForRollback;
                    self.failure = Some((error, message));
                },
            },
            TransactionStep::StartCandidate => match outcome {
                StepOutcome::Done => {
                    self.running = Some(ConfigurationSide::Candidate);
                    self.step = TransactionStep::CommitCandidate;
                },
                StepOutcome::Error { error, message } => {
                    self.step = TransactionStep::StopForRollback;
                    self.failure = Some((error, message));
                },
            },
            TransactionStep::CommitCandidate => {
                self.memory = ConfigurationSide::Candidate;
                self.step = TransactionStep::Succeeded;
            },
            TransactionStep::StopForRollback => {
                self.note("停止候选数据面失败：", &outcome);
                self.running = None;
                self.step = if self.disk == ConfigurationSide::Candidate {
                    TransactionStep::RestoreFile
                } else {
                    TransactionStep::SwitchAccountServiceBack
                };
            },
            TransactionStep::RestoreFile => {
                self.note("恢复配置文件失败：", &outcome);
                if succeeded {
                    self.disk = ConfigurationSide::Previous;
                    self.step = TransactionStep::SwitchAccountServiceBack;
                } else {
                    self.step = TransactionStep::AdoptCandidate;
                }
            },
            TransactionStep::AdoptCandidate => {
                self.memory = ConfigurationSide::Candidate;
                self.step = if self.restartRequired {
                    TransactionStep::RestartCandidate
                } else {
                    TransactionStep::Failed
                };
            },
            TransactionStep::RestartCandidate => {
                self.note("恢复候选代理数据面失败：", &outcome);
                self.running = if succeeded {
                    Some(ConfigurationSide::Candidate)
                } else {
                    None
                };
                self.step = TransactionStep::Failed;
            },
            TransactionStep::SwitchAccountServiceBack => {
                self.note("恢复账号服务失败：", &outcome);
                self.step = TransactionStep::RestoreMemory;
            },
            TransactionStep::RestoreMemory => {
                self.memory = ConfigurationSide::Previous;
                self.step = if self.restartRequired {
                    TransactionStep::RestartPrevious
                } else {
                    TransactionStep::Failed
                };
            },
            TransactionStep::RestartPrevious => {
                self.note("恢复代理数据面失败：", &outcome);
                self.running = if succeeded {
                    Some(ConfigurationSide::Previous)
                } else {
                    None
                };
                self.step = TransactionStep::Failed;
            },
            TransactionStep::Succeeded => {},
            TransactionStep::Refused => {},
            TransactionStep::Failed => {},
        }
    }

    /// The answer of an ended transaction.
    pub fn conclude(self) -> (result: Result<(), ApiError>)
        requires
            transactionValid(self@),
            stepsLeft(self.step) == 0,
        ensures
            result is Ok <==> self.step == TransactionStep::Succeeded,
            result matches Err(error) ==> error@ == mergedError(
                self@.failure->Some_0.0,
                self@.failure->Some_0.1,
                self@.restoreErrors,
            ),
    {
        match self.step {
            TransactionStep::Succeeded => Ok(()),
            _ => match self.failure {
                Some((error, message)) => Err(
                    mergeConfigurationTransactionError(error, message, &self.restoreErrors),
                ),
                None => Ok(()),
            },
        }
    }
}

// ---------------------------------------------------------------------------
// Closing
// ---------------------------------------------------------------------------

/// What is done once a transaction has ended.
#[derive(Clone, Copy, Debug, PartialEq, Eq, Structural)]
pub enum ClosingStep {
    PublishServiceState,
    /// Let readers see the service again.
    LowerBarrier,
    PublishRuntimeViews,
}

/// What is done once a transaction has ended. A restarted service is published before readers see it; a
/// restored one behind them, since they waited for the old configuration.
pub open spec fn closingSteps(t: TransactionView) -> Seq<ClosingStep> {
    match t.step {
        TransactionStep::Succeeded => if t.restartRequired {
            seq![
                ClosingStep::PublishServiceState,
                ClosingStep::LowerBarrier,
                ClosingStep::PublishRuntimeViews,
            ]
        } else {
            seq![ClosingStep::LowerBarrier]
        },
        TransactionStep::Failed => seq![
            ClosingStep::LowerBarrier,
            ClosingStep::PublishServiceState,
            ClosingStep::PublishRuntimeViews,
        ],
        _ => seq![ClosingStep::LowerBarrier],
    }
}

impl ConfigurationTransaction {
    /// What is done now that the transaction has ended.
    pub fn closing(&self) -> (result: Vec<ClosingStep>)
        requires
            stepsLeft(self.step) == 0,
        ensures
            result@ == closingSteps(self@),
    {
        match self.step {
            TransactionStep::Succeeded => if self.restartRequired {
                vec![
                    ClosingStep::PublishServiceState,
                    ClosingStep::LowerBarrier,
                    ClosingStep::PublishRuntimeViews,
                ]
            } else {
                vec![ClosingStep::LowerBarrier]
            },
            TransactionStep::Failed => vec![
                ClosingStep::LowerBarrier,
                ClosingStep::PublishServiceState,
                ClosingStep::PublishRuntimeViews,
            ],
            _ => vec![ClosingStep::LowerBarrier],
        }
    }
}

/// However a transaction ends, readers get to see the service again, once, and a change of the running
/// service is published.
pub proof fn lawBarrierIsAlwaysLowered(t: TransactionView)
    ensures
        closingSteps(t).contains(ClosingStep::LowerBarrier),
        forall|i: int, j: int|
            0 <= i < j < closingSteps(t).len() ==> closingSteps(t)[i] != closingSteps(t)[j],
        t.step == TransactionStep::Succeeded && t.restartRequired || t.step
            == TransactionStep::Failed ==> closingSteps(t).contains(
            ClosingStep::PublishServiceState,
        ),
{
    let steps = closingSteps(t);
    assert(steps[0] == ClosingStep::LowerBarrier || steps[1] == ClosingStep::LowerBarrier);
    if t.step == TransactionStep::Succeeded && t.restartRequired {
        assert(steps[0] == ClosingStep::PublishServiceState);
    } else if t.step == TransactionStep::Failed {
        assert(steps[1] == ClosingStep::PublishServiceState);
    }
}

// ---------------------------------------------------------------------------
// Moving the account service
// ---------------------------------------------------------------------------

/// How moving the account service went. Absent texts stand for success.
#[derive(Debug)]
pub struct AccountSwitchOutcomes {
    pub stop: Option<String>,
    pub startTarget: Option<String>,
    pub restoreSource: Option<String>,
}

/// The error of a failed move of the account service.
pub open spec fn accountSwitchError(outcomes: AccountSwitchOutcomes) -> Option<ApiErrorView> {
    match outcomes.startTarget {
        Some(detail) => Some(
            detailedError(
                500,
                ErrorCode::ServiceStartFailed,
                match outcomes.restoreSource {
                    Some(restore) => detail@ + "; 恢复原账号服务失败："@ + restore@,
                    None => detail@,
                },
            ),
        ),
        None => match outcomes.stop {
            Some(detail) => Some(detailedError(500, ErrorCode::ServiceStopFailed, detail@)),
            None => None,
        },
    }
}

/// Settles a move of the account service: a target that did not start outweighs a source that did
/// not stop.
pub fn concludeAccountSwitch(outcomes: AccountSwitchOutcomes) -> (result: Result<(), ApiError>)
    ensures
        match result {
            Ok(_) => accountSwitchError(outcomes) is None,
            Err(error) => accountSwitchError(outcomes) == Some(error@),
        },
{
    match outcomes.startTarget {
        Some(detail) => {
            let full = match outcomes.restoreSource {
                Some(restore) => concatThree(
                    detail.as_str(),
                    "; 恢复原账号服务失败：",
                    restore.as_str(),
                ),
                None => detail,
            };
            Err(ApiError::internal(ErrorCode::ServiceStartFailed).withDetail(full))
        },
        None => match outcomes.stop {
            Some(detail) => Err(ApiError::internal(ErrorCode::ServiceStopFailed).withDetail(detail)),
            None => Ok(()),
        },
    }
}

/// What is done next to move the account service.
#[derive(Clone, Copy, Debug, PartialEq, Eq, Structural)]
pub enum AccountSwitchStep {
    /// Stop the service.
    Stop,
    /// Start it under the target configuration, whether or not it stopped well.
    StartTarget,
    /// Start it under the source configuration again.
    RestoreSource,
    /// Nothing is left to do.
    Done,
}

/// A move of the account service under way.
#[derive(Debug)]
pub struct AccountSwitch {
    pub step: AccountSwitchStep,
    pub outcomes: AccountSwitchOutcomes,
}

/// The step behind a step. The source comes back only where the target did not start.
pub open spec fn followingSwitch(step: AccountSwitchStep, failed: bool) -> AccountSwitchStep {
    match step {
        AccountSwitchStep::Stop => AccountSwitchStep::StartTarget,
        AccountSwitchStep::StartTarget => if failed {
            AccountSwitchStep::RestoreSource
        } else {
            AccountSwitchStep::Done
        },
        AccountSwitchStep::RestoreSource => AccountSwitchStep::Done,
        AccountSwitchStep::Done => AccountSwitchStep::Done,
    }
}

/// What went wrong, with the outcome of one more step.
pub open spec fn switchNoted(
    step: AccountSwitchStep,
    outcomes: AccountSwitchOutcomes,
    failure: Option<String>,
) -> AccountSwitchOutcomes {
    match step {
        AccountSwitchStep::Stop => AccountSwitchOutcomes { stop: failure, ..outcomes },
        AccountSwitchStep::StartTarget => AccountSwitchOutcomes {
            startTarget: failure,
            ..outcomes
        },
        AccountSwitchStep::RestoreSource => AccountSwitchOutcomes {
            restoreSource: failure,
            ..outcomes
        },
        AccountSwitchStep::Done => outcomes,
    }
}

impl AccountSwitch {
    /// Begins to move the account service. Where nothing changes, nothing is done.
    pub fn switchAccountService(
        source: &MultiAccountConfiguration,
        target: &MultiAccountConfiguration,
    ) -> (result: AccountSwitch)
        ensures
            result.step == if source@ == target@ {
                AccountSwitchStep::Done
            } else {
                AccountSwitchStep::Stop
            },
            result.outcomes.stop is None,
            result.outcomes.startTarget is None,
            result.outcomes.restoreSource is None,
    {
        AccountSwitch {
            step: if source.sameAs(target) {
                AccountSwitchStep::Done
            } else {
                AccountSwitchStep::Stop
            },
            outcomes: AccountSwitchOutcomes { stop: None, startTarget: None, restoreSource: None },
        }
    }

    /// Takes the outcome of the current step and moves on to the next one.
    pub fn advance(self, failure: Option<String>) -> (result: AccountSwitch)
        ensures
            result.step == followingSwitch(self.step, failure is Some),
            result.outcomes == switchNoted(self.step, self.outcomes, failure),
    {
        let AccountSwitch { step, outcomes } = self;
        match step {
            AccountSwitchStep::Stop => AccountSwitch {
                step: AccountSwitchStep::StartTarget,
                outcomes: AccountSwitchOutcomes { stop: failure, ..outcomes },
            },
            AccountSwitchStep::StartTarget => AccountSwitch {
                step: if failure.is_some() {
                    AccountSwitchStep::RestoreSource
                } else {
                    AccountSwitchStep::Done
                },
                outcomes: AccountSwitchOutcomes { startTarget: failure, ..outcomes },
            },
            AccountSwitchStep::RestoreSource => AccountSwitch {
                step: AccountSwitchStep::Done,
                outcomes: AccountSwitchOutcomes { restoreSource: failure, ..outcomes },
            },
            AccountSwitchStep::Done => AccountSwitch { step, outcomes },
        }
    }
}

/// What always holds of a move: the source comes back only behind a target that did not start, and only
/// then can its return fail.
pub open spec fn isSwitchSound(switch: AccountSwitch) -> bool {
    &&& switch.step is Stop ==> switch.outcomes.stop is None
    &&& switch.step is Stop || switch.step is StartTarget ==> switch.outcomes.startTarget is None
    &&& switch.step is RestoreSource ==> switch.outcomes.startTarget is Some
    &&& switch.outcomes.restoreSource is Some ==> switch.outcomes.startTarget is Some
        && switch.step is Done
}

/// A move ends with the service started under the target, or with an error behind an attempt to bring
/// the source back.
pub proof fn lawSourceIsBroughtBack(switch: AccountSwitch, failure: Option<String>)
    requires
        isSwitchSound(switch),
    ensures
        isSwitchSound(
            AccountSwitch {
                step: followingSwitch(switch.step, failure is Some),
                outcomes: switchNoted(switch.step, switch.outcomes, failure),
            },
        ),
        switch.step is StartTarget && failure is Some ==> followingSwitch(switch.step, true)
            is RestoreSource,
        switch.step is Done && accountSwitchError(switch.outcomes) is None
            ==> switch.outcomes.startTarget is None,
        switch.step is Done && switch.outcomes.startTarget is Some ==> accountSwitchError(
            switch.outcomes,
        ) is Some,
{
}

/// A change that meets no failure stops the service where it runs, switches the account service where it changed,
/// stores the candidate, starts the service with it and puts it into force.
pub proof fn lawCandidateTakesEffect(restartRequired: bool, accountServiceChanged: bool)
    ensures
        ({
            let first = beginningTransaction(restartRequired, accountServiceChanged);
            let last = ran(
                first,
                seq![None::<(ApiErrorView, Seq<char>)>, None, None, None, None],
            );
            &&& first.step == if restartRequired {
                TransactionStep::StopService
            } else if accountServiceChanged {
                TransactionStep::SwitchAccountService
            } else {
                TransactionStep::Persist
            }
            &&& last.step == TransactionStep::Succeeded
            &&& last.disk == ConfigurationSide::Candidate
            &&& last.memory == ConfigurationSide::Candidate
            &&& last.running == if restartRequired {
                Some(ConfigurationSide::Candidate)
            } else {
                None
            }
            &&& last.failure is None && last.restoreErrors.len() == 0
        }),
{
    let none = None::<(ApiErrorView, Seq<char>)>;
    let five = seq![none, none, none, none, none];
    let four = five.drop_first();
    let three = four.drop_first();
    let two = three.drop_first();
    let one = two.drop_first();
    let first = beginningTransaction(restartRequired, accountServiceChanged);
    let a = stepped(first, none);
    let b = stepped(a, none);
    let c = stepped(b, none);
    let d = stepped(c, none);
    let e = stepped(d, none);
    assert(one.drop_first().len() == 0);
    assert(ran(e, one.drop_first()) == e);
    assert(ran(d, one) == e);
    assert(ran(c, two) == e);
    assert(ran(b, three) == e);
    assert(ran(a, four) == e);
    assert(ran(first, five) == e);
}

/// A change that fails is taken back, and tells why: a service that could not be stopped refuses it, and any later
/// failure leads to the file, the account service, the memory and the service as they were. What cannot be taken
/// back is told with its own reason, and a file that stays the candidate's makes the candidate stay in force.
pub proof fn lawFailedChangeIsTakenBack(
    t: TransactionView,
    error: (ApiErrorView, Seq<char>),
)
    ensures
        ({
            let failed = |step: TransactionStep| stepped(TransactionView { step, ..t }, Some(error));
            let done = |step: TransactionStep| stepped(TransactionView { step, ..t }, None);
            &&& failed(TransactionStep::StopService).step == TransactionStep::Refused
            &&& failed(TransactionStep::StopService).failure == Some(error)
            &&& failed(TransactionStep::SwitchAccountService).step
                == TransactionStep::StopForRollback
            &&& failed(TransactionStep::SwitchAccountService).failure == Some(error)
            &&& failed(TransactionStep::Persist).step == TransactionStep::StopForRollback
            &&& failed(TransactionStep::Persist).failure == Some(error)
            &&& failed(TransactionStep::StartCandidate).step == TransactionStep::StopForRollback
            &&& failed(TransactionStep::StartCandidate).failure == Some(error)
            &&& done(TransactionStep::StopForRollback).step == if t.disk
                == ConfigurationSide::Candidate {
                TransactionStep::RestoreFile
            } else {
                TransactionStep::SwitchAccountServiceBack
            }
            &&& done(TransactionStep::RestoreFile).step == TransactionStep::SwitchAccountServiceBack
            &&& done(TransactionStep::RestoreFile).disk == ConfigurationSide::Previous
            &&& failed(TransactionStep::RestoreFile).step == TransactionStep::AdoptCandidate
            &&& done(TransactionStep::SwitchAccountServiceBack).step
                == TransactionStep::RestoreMemory
            &&& done(TransactionStep::RestoreMemory).memory == ConfigurationSide::Previous
            &&& done(TransactionStep::RestoreMemory).step == if t.restartRequired {
                TransactionStep::RestartPrevious
            } else {
                TransactionStep::Failed
            }
            &&& done(TransactionStep::RestartPrevious).running == Some(ConfigurationSide::Previous)
            &&& done(TransactionStep::RestartPrevious).step == TransactionStep::Failed
            &&& done(TransactionStep::AdoptCandidate).memory == ConfigurationSide::Candidate
            &&& done(TransactionStep::AdoptCandidate).step == if t.restartRequired {
                TransactionStep::RestartCandidate
            } else {
                TransactionStep::Failed
            }
            &&& done(TransactionStep::RestartCandidate).running == Some(
                ConfigurationSide::Candidate,
            )
            &&& failed(TransactionStep::StopForRollback).restoreErrors == t.restoreErrors.push(
                "停止候选数据面失败："@ + error.1,
            )
            &&& failed(TransactionStep::RestoreFile).restoreErrors == t.restoreErrors.push(
                "恢复配置文件失败："@ + error.1,
            )
            &&& failed(TransactionStep::SwitchAccountServiceBack).restoreErrors
                == t.restoreErrors.push("恢复账号服务失败："@ + error.1)
            &&& failed(TransactionStep::RestartPrevious).restoreErrors == t.restoreErrors.push(
                "恢复代理数据面失败："@ + error.1,
            )
            &&& failed(TransactionStep::RestartCandidate).restoreErrors == t.restoreErrors.push(
                "恢复候选代理数据面失败："@ + error.1,
            )
        }),
{
}

/// The first failure is the answer; what could not be taken back is told behind it.
pub proof fn lawFirstFailureIsTheAnswer(
    error: ApiErrorView,
    message: Seq<char>,
    restoreErrors: Seq<Seq<char>>,
)
    ensures
        restoreErrors.len() == 0 ==> mergedError(error, message, restoreErrors) == error,
        mergedError(error, message, restoreErrors).status == error.status,
        mergedError(error, message, restoreErrors).code == error.code,
        restoreErrors.len() > 0 ==> mergedError(error, message, restoreErrors) == errorWith(
            error,
            "detail"@,
            message + "; 配置事务恢复失败："@ + joined(restoreErrors, "; "@),
        ),
{
}

/// The barrier is lowered before the views of what runs are published, and behind the state of a service that was
/// restarted.
pub proof fn lawClosingKeepsItsOrder(t: TransactionView)
    ensures
        t.step == TransactionStep::Succeeded && t.restartRequired ==> closingSteps(t) == seq![
            ClosingStep::PublishServiceState,
            ClosingStep::LowerBarrier,
            ClosingStep::PublishRuntimeViews,
        ],
        t.step == TransactionStep::Succeeded && !t.restartRequired ==> closingSteps(t) == seq![
            ClosingStep::LowerBarrier,
        ],
        t.step == TransactionStep::Refused ==> closingSteps(t) == seq![ClosingStep::LowerBarrier],
        t.step == TransactionStep::Failed ==> closingSteps(t) == seq![
            ClosingStep::LowerBarrier,
            ClosingStep::PublishServiceState,
            ClosingStep::PublishRuntimeViews,
        ],
{
}

/// An account service is switched by stopping it and starting the other; where that fails the first one is started
/// again, and the answer tells what failed.
pub proof fn lawAccountServiceIsSwitched(outcomes: AccountSwitchOutcomes, detail: String)
    ensures
        followingSwitch(AccountSwitchStep::Stop, false) == AccountSwitchStep::StartTarget,
        followingSwitch(AccountSwitchStep::Stop, true) == AccountSwitchStep::StartTarget,
        followingSwitch(AccountSwitchStep::StartTarget, false) == AccountSwitchStep::Done,
        followingSwitch(AccountSwitchStep::RestoreSource, false) == AccountSwitchStep::Done,
        followingSwitch(AccountSwitchStep::RestoreSource, true) == AccountSwitchStep::Done,
        switchNoted(AccountSwitchStep::Stop, outcomes, Some(detail)).stop == Some(detail),
        switchNoted(AccountSwitchStep::StartTarget, outcomes, Some(detail)).startTarget == Some(
            detail,
        ),
        switchNoted(AccountSwitchStep::RestoreSource, outcomes, Some(detail)).restoreSource == Some(
            detail,
        ),
        outcomes.startTarget is None && outcomes.stop is None ==> accountSwitchError(outcomes)
            is None,
        outcomes.startTarget is None ==> (outcomes.stop matches Some(text) ==> accountSwitchError(
            outcomes,
        ) == Some(detailedError(500, ErrorCode::ServiceStopFailed, text@))),
        outcomes.restoreSource is None ==> (outcomes.startTarget matches Some(text)
            ==> accountSwitchError(outcomes) == Some(
            detailedError(500, ErrorCode::ServiceStartFailed, text@),
        )),
{
}

} // verus!
