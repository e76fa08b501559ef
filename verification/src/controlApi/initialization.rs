//! Preparing the service: where its data lies, and why it cannot begin.

use crate::controlApi::dataDirectory::{
    childPath, dataDirectoryMessage, installationDataDirectory, isBeside, isPortable, isRooted,
    joinPath, nameCount, DataDirectoryError, DataDirectoryErrorView, PathStyle,
};
use crate::controlApi::httpControl::ApiError;
use crate::text::{concatText, copyText};
use vstd::prelude::*;

verus! {

pub const userDataOverrideVariable: &'static str = "CAPTURE_USER_DATA_DIR";

/// Why the service cannot begin. Each variant that holds a text holds what its cause says.
#[derive(Debug)]
pub enum ControlInitializationError {
    Capture(String),
    Ssl(String),
    ToolMappingDirectory(String),
    ProtocolDescriptorDirectory(String),
    PluginHost(String),
    ToolConfiguration { detail: String },
    ExecutablePath(String),
    DataDirectory(DataDirectoryError),
    LegacyUserDataDirectory,
}

/// The mathematical value of a failure to begin.
pub enum ControlInitializationErrorView {
    Capture(Seq<char>),
    Ssl(Seq<char>),
    ToolMappingDirectory(Seq<char>),
    ProtocolDescriptorDirectory(Seq<char>),
    PluginHost(Seq<char>),
    ToolConfiguration { detail: Seq<char> },
    ExecutablePath(Seq<char>),
    DataDirectory(DataDirectoryErrorView),
    LegacyUserDataDirectory,
}

impl View for ControlInitializationError {
    type V = ControlInitializationErrorView;

    open spec fn view(&self) -> ControlInitializationErrorView {
        match *self {
            ControlInitializationError::Capture(cause) => ControlInitializationErrorView::Capture(
                cause@,
            ),
            ControlInitializationError::Ssl(cause) => ControlInitializationErrorView::Ssl(cause@),
            ControlInitializationError::ToolMappingDirectory(cause) =>
                ControlInitializationErrorView::ToolMappingDirectory(cause@),
            ControlInitializationError::ProtocolDescriptorDirectory(cause) =>
                ControlInitializationErrorView::ProtocolDescriptorDirectory(cause@),
            ControlInitializationError::PluginHost(cause) =>
                ControlInitializationErrorView::PluginHost(cause@),
            ControlInitializationError::ToolConfiguration { detail } =>
                ControlInitializationErrorView::ToolConfiguration { detail: detail@ },
            ControlInitializationError::ExecutablePath(cause) =>
                ControlInitializationErrorView::ExecutablePath(cause@),
            ControlInitializationError::DataDirectory(error) =>
                ControlInitializationErrorView::DataDirectory(error@),
            ControlInitializationError::LegacyUserDataDirectory =>
                ControlInitializationErrorView::LegacyUserDataDirectory,
        }
    }
}

/// What a failure to begin says.
pub open spec fn initializationMessage(error: ControlInitializationErrorView) -> Seq<char> {
    match error {
        ControlInitializationErrorView::Capture(cause) => "初始化录制会话失败："@ + cause,
        ControlInitializationErrorView::Ssl(cause) => "初始化 SSL 证书失败："@ + cause,
        ControlInitializationErrorView::ToolMappingDirectory(cause) =>
            "初始化工具映射目录失败："@ + cause,
        ControlInitializationErrorView::ProtocolDescriptorDirectory(cause) =>
            "初始化协议描述符目录失败："@ + cause,
        ControlInitializationErrorView::PluginHost(cause) => "初始化插件宿主失败："@ + cause,
        ControlInitializationErrorView::ToolConfiguration { detail } =>
            "初始化工具配置失败："@ + detail,
        ControlInitializationErrorView::ExecutablePath(cause) =>
            "读取代理服务可执行文件路径失败："@ + cause,
        ControlInitializationErrorView::DataDirectory(error) => "准备安装目录数据失败："@
            + dataDirectoryMessage(error),
        ControlInitializationErrorView::LegacyUserDataDirectory =>
            "无法确定旧版用户数据目录"@,
    }
}

impl ControlInitializationError {
    /// What the failure says.
    pub fn message(&self) -> (result: String)
        ensures
            result@ == initializationMessage(self@),
    {
        match self {
            ControlInitializationError::Capture(cause) => concatText(
                "初始化录制会话失败：",
                cause.as_str(),
            ),
            ControlInitializationError::Ssl(cause) => concatText(
                "初始化 SSL 证书失败：",
                cause.as_str(),
            ),
            ControlInitializationError::ToolMappingDirectory(cause) => concatText(
                "初始化工具映射目录失败：",
                cause.as_str(),
            ),
            ControlInitializationError::ProtocolDescriptorDirectory(cause) => concatText(
                "初始化协议描述符目录失败：",
                cause.as_str(),
            ),
            ControlInitializationError::PluginHost(cause) => concatText(
                "初始化插件宿主失败：",
                cause.as_str(),
            ),
            ControlInitializationError::ToolConfiguration { detail } => concatText(
                "初始化工具配置失败：",
                detail.as_str(),
            ),
            ControlInitializationError::ExecutablePath(cause) => concatText(
                "读取代理服务可执行文件路径失败：",
                cause.as_str(),
            ),
            ControlInitializationError::DataDirectory(error) => {
                let cause = error.message();
                concatText("准备安装目录数据失败：", cause.as_str())
            },
            ControlInitializationError::LegacyUserDataDirectory => copyText(
                "无法确定旧版用户数据目录",
            ),
        }
    }
}

/// Where the data lies.
#[derive(Debug)]
pub enum DataDirectoryPlan {
    /// Where the environment says; nothing is moved.
    Chosen(String),
    /// Beside the executable; older data is moved there first.
    Installation { directory: String, legacy: String },
}

/// The mathematical value of a plan.
pub enum DataDirectoryPlanView {
    Chosen(Seq<char>),
    Installation { directory: Seq<char>, legacy: Seq<char> },
}

impl View for DataDirectoryPlan {
    type V = DataDirectoryPlanView;

    open spec fn view(&self) -> DataDirectoryPlanView {
        match *self {
            DataDirectoryPlan::Chosen(directory) => DataDirectoryPlanView::Chosen(directory@),
            DataDirectoryPlan::Installation { directory, legacy } =>
                DataDirectoryPlanView::Installation { directory: directory@, legacy: legacy@ },
        }
    }
}

/// Decides where the data lies: where the environment says, else beside the executable. The first
/// thing that cannot be determined is reported; no other place is fallen back on. `executableError`
/// is why the executable could not be found, and `installation` the directory beside it.
pub fn planDataDirectory(
    chosen: Option<String>,
    executableError: Option<String>,
    installation: Result<String, DataDirectoryError>,
    legacy: Option<String>,
) -> (result: Result<DataDirectoryPlan, ControlInitializationError>)
    ensures
        match result {
            Ok(plan) => match chosen {
                Some(directory) => plan@ == DataDirectoryPlanView::Chosen(directory@),
                None => executableError is None && legacy is Some && (installation matches Ok(
                    directory,
                ) && plan@ == (DataDirectoryPlanView::Installation {
                    directory: directory@,
                    legacy: legacy->0@,
                })),
            },
            Err(error) => chosen is None && (match executableError {
                Some(cause) => error@ == ControlInitializationErrorView::ExecutablePath(cause@),
                None => match installation {
                    Err(cause) => error@ == ControlInitializationErrorView::DataDirectory(cause@),
                    Ok(_) => legacy is None && error@
                        == ControlInitializationErrorView::LegacyUserDataDirectory,
                },
            }),
        },
{
    match chosen {
        Some(directory) => return Ok(DataDirectoryPlan::Chosen(directory)),
        None => {},
    }
    match executableError {
        Some(cause) => return Err(ControlInitializationError::ExecutablePath(cause)),
        None => {},
    }
    let directory = match installation {
        Ok(directory) => directory,
        Err(error) => return Err(ControlInitializationError::DataDirectory(error)),
    };
    match legacy {
        Some(legacy) => Ok(DataDirectoryPlan::Installation { directory, legacy }),
        None => Err(ControlInitializationError::LegacyUserDataDirectory),
    }
}

/// Decides where the data lies, given the path of the executable or why there is none.
pub fn defaultDataDirectory(
    style: PathStyle,
    chosen: Option<String>,
    executable: Result<String, String>,
    legacy: Option<String>,
) -> (result: Result<DataDirectoryPlan, ControlInitializationError>)
    ensures
        chosen matches Some(directory) ==> (result matches Ok(plan) && plan@
            == DataDirectoryPlanView::Chosen(directory@)),
        chosen is None && executable is Err ==> (result matches Err(error) && error@
            == ControlInitializationErrorView::ExecutablePath(executable->Err_0@)),
        chosen is None && legacy is None ==> result is Err,
        chosen is None && legacy is Some && executable is Ok && isPortable(executable->Ok_0@)
            && isRooted(executable->Ok_0@) ==> (result is Ok <==> nameCount(executable->Ok_0@) > 0),
        chosen is None && executable is Ok ==> match result {
            Ok(plan) => legacy is Some && (plan@ matches DataDirectoryPlanView::Installation {
                directory,
                legacy: older,
            } && older == legacy->0@ && isBeside(style, executable->Ok_0@, directory)),
            Err(error) => error@ == ControlInitializationErrorView::DataDirectory(
                DataDirectoryErrorView::MissingInstallationDirectory {
                    executablePath: executable->Ok_0@,
                },
            ) || (legacy is None && error@
                == ControlInitializationErrorView::LegacyUserDataDirectory),
        },
{
    match executable {
        Ok(path) => {
            let installation = installationDataDirectory(style, path.as_str());
            planDataDirectory(chosen, None, installation, legacy)
        },
        Err(cause) => planDataDirectory(chosen, Some(cause), Ok(String::new()), legacy),
    }
}

/// The directory of the certificates below the data directory; nothing is created.
pub fn certificateDirectory(style: PathStyle, dataDirectory: &str) -> (result: String)
    ensures
        result@ == childPath(style, dataDirectory@, "certs"@),
{
    joinPath(style, dataDirectory, "certs")
}

// ---------------------------------------------------------------------------
// The order of preparations
// ---------------------------------------------------------------------------

/// The preparations of the control plane, in their order.
#[derive(Clone, Copy, Debug, PartialEq, Eq, Structural)]
pub enum InitializationStep {
    LoadConfiguration,
    /// Start the tool server; a failure is shown and stops nothing.
    StartMcp,
    OpenRecording,
    /// Pause the new recording, where it was paused before.
    PauseRecording,
    LoadCertificates,
    ApplySslConfiguration,
    LoadPlugins,
    CreateMappingDirectory,
    SetUpTools,
    SetUpProtocols,
    RestoreConfiguration,
    /// Store the configuration, complete from the first start on.
    StoreConfiguration,
    PrepareAccountService,
    LoadClientPackages,
    /// Start the account service; a failure is shown and stops nothing.
    StartAccountService,
    LoadUdpRecording,
    /// Follow the recording, the breakpoints, the load tests, the plugins and the processes.
    FollowChanges,
    Ready,
}

/// The preparation behind a preparation. `paused` says whether recording was paused before.
pub open spec fn followingPreparation(step: InitializationStep, paused: bool) -> InitializationStep {
    match step {
        InitializationStep::LoadConfiguration => InitializationStep::StartMcp,
        InitializationStep::StartMcp => InitializationStep::OpenRecording,
        InitializationStep::OpenRecording => if paused {
            InitializationStep::PauseRecording
        } else {
            InitializationStep::LoadCertificates
        },
        InitializationStep::PauseRecording => InitializationStep::LoadCertificates,
        InitializationStep::LoadCertificates => InitializationStep::ApplySslConfiguration,
        InitializationStep::ApplySslConfiguration => InitializationStep::LoadPlugins,
        InitializationStep::LoadPlugins => InitializationStep::CreateMappingDirectory,
        InitializationStep::CreateMappingDirectory => InitializationStep::SetUpTools,
        InitializationStep::SetUpTools => InitializationStep::SetUpProtocols,
        InitializationStep::SetUpProtocols => InitializationStep::RestoreConfiguration,
        InitializationStep::RestoreConfiguration => InitializationStep::StoreConfiguration,
        InitializationStep::StoreConfiguration => InitializationStep::PrepareAccountService,
        InitializationStep::PrepareAccountService => InitializationStep::LoadClientPackages,
        InitializationStep::LoadClientPackages => InitializationStep::StartAccountService,
        InitializationStep::StartAccountService => InitializationStep::LoadUdpRecording,
        InitializationStep::LoadUdpRecording => InitializationStep::FollowChanges,
        InitializationStep::FollowChanges => InitializationStep::Ready,
        InitializationStep::Ready => InitializationStep::Ready,
    }
}

/// What a failed preparation ends with, where it ends anything.
pub open spec fn preparationError(step: InitializationStep, cause: Seq<char>) -> Option<
    ControlInitializationErrorView,
> {
    match step {
        InitializationStep::StartMcp | InitializationStep::StartAccountService
        | InitializationStep::FollowChanges | InitializationStep::Ready => None,
        InitializationStep::OpenRecording | InitializationStep::PauseRecording => Some(
            ControlInitializationErrorView::Capture(cause),
        ),
        InitializationStep::LoadCertificates | InitializationStep::ApplySslConfiguration => Some(
            ControlInitializationErrorView::Ssl(cause),
        ),
        InitializationStep::LoadPlugins => Some(ControlInitializationErrorView::PluginHost(cause)),
        InitializationStep::SetUpTools => Some(
            ControlInitializationErrorView::ToolConfiguration { detail: cause },
        ),
        InitializationStep::SetUpProtocols => Some(
            ControlInitializationErrorView::ProtocolDescriptorDirectory(cause),
        ),
        _ => Some(ControlInitializationErrorView::ToolMappingDirectory(cause)),
    }
}

/// What a preparation leads to: the next one, or the failure that ends them all.
pub open spec fn nextPreparation(
    step: InitializationStep,
    paused: bool,
    failure: Option<Seq<char>>,
) -> Result<InitializationStep, ControlInitializationErrorView> {
    match failure {
        Some(cause) => match preparationError(step, cause) {
            Some(error) => Err(error),
            None => Ok(followingPreparation(step, paused)),
        },
        None => Ok(followingPreparation(step, paused)),
    }
}

/// The value of what a preparation leads to.
pub open spec fn preparationView(
    result: Result<InitializationStep, ControlInitializationError>,
) -> Result<InitializationStep, ControlInitializationErrorView> {
    match result {
        Ok(step) => Ok(step),
        Err(error) => Err(error@),
    }
}

impl InitializationStep {
    fn following(self, paused: bool) -> (result: InitializationStep)
        ensures
            result == followingPreparation(self, paused),
    {
        match self {
            InitializationStep::LoadConfiguration => InitializationStep::StartMcp,
            InitializationStep::StartMcp => InitializationStep::OpenRecording,
            InitializationStep::OpenRecording => if paused {
                InitializationStep::PauseRecording
            } else {
                InitializationStep::LoadCertificates
            },
            InitializationStep::PauseRecording => InitializationStep::LoadCertificates,
            InitializationStep::LoadCertificates => InitializationStep::ApplySslConfiguration,
            InitializationStep::ApplySslConfiguration => InitializationStep::LoadPlugins,
            InitializationStep::LoadPlugins => InitializationStep::CreateMappingDirectory,
            InitializationStep::CreateMappingDirectory => InitializationStep::SetUpTools,
            InitializationStep::SetUpTools => InitializationStep::SetUpProtocols,
            InitializationStep::SetUpProtocols => InitializationStep::RestoreConfiguration,
            InitializationStep::RestoreConfiguration => InitializationStep::StoreConfiguration,
            InitializationStep::StoreConfiguration => InitializationStep::PrepareAccountService,
            InitializationStep::PrepareAccountService => InitializationStep::LoadClientPackages,
            InitializationStep::LoadClientPackages => InitializationStep::StartAccountService,
            InitializationStep::StartAccountService => InitializationStep::LoadUdpRecording,
            InitializationStep::LoadUdpRecording => InitializationStep::FollowChanges,
            InitializationStep::FollowChanges => InitializationStep::Ready,
            InitializationStep::Ready => InitializationStep::Ready,
        }
    }

    /// What the preparation leads to.
    pub fn newWithDataDirectory(self, paused: bool, failure: Option<String>) -> (result: Result<
        InitializationStep,
        ControlInitializationError,
    >)
        ensures
            preparationView(result) == nextPreparation(
                self,
                paused,
                crate::text::optionalView(failure),
            ),
    {
        match failure {
            Some(cause) => match self {
                InitializationStep::StartMcp => Ok(self.following(paused)),
                InitializationStep::StartAccountService => Ok(self.following(paused)),
                InitializationStep::FollowChanges => Ok(self.following(paused)),
                InitializationStep::Ready => Ok(self.following(paused)),
                InitializationStep::OpenRecording => Err(
                    ControlInitializationError::Capture(cause),
                ),
                InitializationStep::PauseRecording => Err(
                    ControlInitializationError::Capture(cause),
                ),
                InitializationStep::LoadCertificates => Err(ControlInitializationError::Ssl(cause)),
                InitializationStep::ApplySslConfiguration => Err(
                    ControlInitializationError::Ssl(cause),
                ),
                InitializationStep::LoadPlugins => Err(
                    ControlInitializationError::PluginHost(cause),
                ),
                InitializationStep::SetUpTools => Err(
                    ControlInitializationError::ToolConfiguration { detail: cause },
                ),
                InitializationStep::SetUpProtocols => Err(
                    ControlInitializationError::ProtocolDescriptorDirectory(cause),
                ),
                _ => Err(ControlInitializationError::ToolMappingDirectory(cause)),
            },
            None => Ok(self.following(paused)),
        }
    }
}

/// How many preparations are still ahead.
pub open spec fn preparationsAhead(step: InitializationStep) -> nat {
    match step {
        InitializationStep::LoadConfiguration => 17,
        InitializationStep::StartMcp => 16,
        InitializationStep::OpenRecording => 15,
        InitializationStep::PauseRecording => 14,
        InitializationStep::LoadCertificates => 13,
        InitializationStep::ApplySslConfiguration => 12,
        InitializationStep::LoadPlugins => 11,
        InitializationStep::CreateMappingDirectory => 10,
        InitializationStep::SetUpTools => 9,
        InitializationStep::SetUpProtocols => 8,
        InitializationStep::RestoreConfiguration => 7,
        InitializationStep::StoreConfiguration => 6,
        InitializationStep::PrepareAccountService => 5,
        InitializationStep::LoadClientPackages => 4,
        InitializationStep::StartAccountService => 3,
        InitializationStep::LoadUdpRecording => 2,
        InitializationStep::FollowChanges => 1,
        InitializationStep::Ready => 0,
    }
}

/// Preparations come to an end, the tool server and the account service never prevent it, and a
/// recording that was paused is paused before anything can reach it.
pub proof fn lawPreparationsEnd(
    step: InitializationStep,
    paused: bool,
    failure: Option<Seq<char>>,
)
    ensures
        nextPreparation(step, paused, failure) matches Ok(next) ==> step is Ready
            || preparationsAhead(next) < preparationsAhead(step),
        step is StartMcp || step is StartAccountService ==> nextPreparation(step, paused, failure)
            == Ok::<InitializationStep, ControlInitializationErrorView>(
            followingPreparation(step, paused),
        ),
        paused && step is OpenRecording && failure is None ==> nextPreparation(
            step,
            paused,
            failure,
        ) == Ok::<InitializationStep, ControlInitializationErrorView>(
            InitializationStep::PauseRecording,
        ),
        failure is None ==> nextPreparation(step, paused, failure) is Ok,
{
}

/// The configuration to begin with: the stored one, or the built-in one where nothing is stored. A
/// stored configuration that does not hold together is never replaced by the built-in one.
pub fn restoreConfiguration<T>(saved: Option<Result<T, ApiError>>, builtIn: T) -> (result: Result<
    T,
    String,
>)
    ensures
        match saved {
            None => result == Ok::<T, String>(builtIn),
            Some(Ok(configuration)) => result == Ok::<T, String>(configuration),
            Some(Err(_)) => result matches Err(cause) && cause@ == "保存的服务配置无效"@,
        },
{
    match saved {
        None => Ok(builtIn),
        Some(Ok(configuration)) => Ok(configuration),
        Some(Err(_)) => Err(copyText("保存的服务配置无效")),
    }
}

/// The preparations come in their order, and a recording that was paused is paused again before anything that
/// could record.
pub proof fn lawPreparationsComeInOrder(paused: bool)
    ensures
        ({
            let next = |step: InitializationStep| followingPreparation(step, paused);
            &&& next(InitializationStep::LoadConfiguration) == InitializationStep::StartMcp
            &&& next(InitializationStep::StartMcp) == InitializationStep::OpenRecording
            &&& !paused ==> next(InitializationStep::OpenRecording)
                == InitializationStep::LoadCertificates
            &&& next(InitializationStep::PauseRecording) == InitializationStep::LoadCertificates
            &&& next(InitializationStep::LoadCertificates)
                == InitializationStep::ApplySslConfiguration
            &&& next(InitializationStep::ApplySslConfiguration) == InitializationStep::LoadPlugins
            &&& next(InitializationStep::LoadPlugins) == InitializationStep::CreateMappingDirectory
            &&& next(InitializationStep::CreateMappingDirectory) == InitializationStep::SetUpTools
            &&& next(InitializationStep::SetUpTools) == InitializationStep::SetUpProtocols
            &&& next(InitializationStep::SetUpProtocols)
                == InitializationStep::RestoreConfiguration
            &&& next(InitializationStep::RestoreConfiguration)
                == InitializationStep::StoreConfiguration
            &&& next(InitializationStep::StoreConfiguration)
                == InitializationStep::PrepareAccountService
            &&& next(InitializationStep::PrepareAccountService)
                == InitializationStep::LoadClientPackages
            &&& next(InitializationStep::LoadClientPackages)
                == InitializationStep::StartAccountService
            &&& next(InitializationStep::StartAccountService)
                == InitializationStep::LoadUdpRecording
            &&& next(InitializationStep::LoadUdpRecording) == InitializationStep::FollowChanges
            &&& next(InitializationStep::FollowChanges) == InitializationStep::Ready
        }),
{
}

/// A preparation that fails ends the start with its cause, told by what was prepared; only the tool server and the
/// account service may fail without ending it.
pub proof fn lawPreparationTellsItsCause(step: InitializationStep, paused: bool, cause: Seq<char>)
    ensures
        nextPreparation(step, paused, Some(cause)) is Ok <==> step is StartMcp || step
            is StartAccountService || step is FollowChanges || step is Ready,
        step is OpenRecording || step is PauseRecording ==> preparationError(step, cause) == Some(
            ControlInitializationErrorView::Capture(cause),
        ),
        step is LoadCertificates || step is ApplySslConfiguration ==> preparationError(step, cause)
            == Some(ControlInitializationErrorView::Ssl(cause)),
        step is LoadPlugins ==> preparationError(step, cause) == Some(
            ControlInitializationErrorView::PluginHost(cause),
        ),
        step is SetUpTools ==> preparationError(step, cause) == Some(
            ControlInitializationErrorView::ToolConfiguration { detail: cause },
        ),
        step is SetUpProtocols ==> preparationError(step, cause) == Some(
            ControlInitializationErrorView::ProtocolDescriptorDirectory(cause),
        ),
        step is LoadConfiguration || step is RestoreConfiguration || step is StoreConfiguration
            || step is CreateMappingDirectory || step is PrepareAccountService || step
            is LoadClientPackages || step is LoadUdpRecording ==> preparationError(step, cause)
            == Some(ControlInitializationErrorView::ToolMappingDirectory(cause)),
{
}

/// A start that failed tells which part of it did, with its cause.
pub proof fn lawInitializationTellsItsPart(cause: Seq<char>)
    ensures
        initializationMessage(ControlInitializationErrorView::Capture(cause)) == "初始化录制会话失败："@
            + cause,
        initializationMessage(ControlInitializationErrorView::Ssl(cause)) == "初始化 SSL 证书失败："@
            + cause,
        initializationMessage(ControlInitializationErrorView::ToolMappingDirectory(cause))
            == "初始化工具映射目录失败："@ + cause,
        initializationMessage(ControlInitializationErrorView::ProtocolDescriptorDirectory(cause))
            == "初始化协议描述符目录失败："@ + cause,
        initializationMessage(ControlInitializationErrorView::PluginHost(cause))
            == "初始化插件宿主失败："@ + cause,
        initializationMessage(ControlInitializationErrorView::ToolConfiguration { detail: cause })
            == "初始化工具配置失败："@ + cause,
        initializationMessage(ControlInitializationErrorView::ExecutablePath(cause))
            == "读取代理服务可执行文件路径失败："@ + cause,
        initializationMessage(ControlInitializationErrorView::LegacyUserDataDirectory)
            == "无法确定旧版用户数据目录"@,
        initializationMessage(
            ControlInitializationErrorView::DataDirectory(
                crate::controlApi::dataDirectory::DataDirectoryErrorView::MissingDataParent {
                    directory: cause,
                },
            ),
        ) == "准备安装目录数据失败："@ + ("安装数据目录没有有效的父目录："@ + cause),
{
}

} // verus!
