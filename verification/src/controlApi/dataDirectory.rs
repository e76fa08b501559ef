//! Where the service keeps its data, and how the data of an older place moves there.

use crate::identifier::{canonicalForm, canonicalText, isRandomIdentifier, newIdentifier};
use crate::text::{charsOf, concatText, concatThree, copyText, splitOn};
use vstd::prelude::*;

verus! {

pub const applicationDataDirectoryName: &'static str = "data";

pub const configurationFileName: &'static str = "configuration.json";

// ---------------------------------------------------------------------------
// Paths
// ---------------------------------------------------------------------------

/// How paths are written on this machine.
#[derive(Clone, Copy, Debug, PartialEq, Eq, Structural)]
pub enum PathStyle {
    Unix,
    Windows,
}

/// Whether a character separates the parts of a path.
pub open spec fn isSeparator(style: PathStyle, c: char) -> bool {
    c == '/' || (style == PathStyle::Windows && c == '\\')
}

/// The separator that is written.
pub open spec fn mainSeparator(style: PathStyle) -> char {
    match style {
        PathStyle::Unix => '/',
        PathStyle::Windows => '\\',
    }
}

/// Whether a path is nothing but a drive.
pub open spec fn isDrive(style: PathStyle, path: Seq<char>) -> bool {
    &&& style == PathStyle::Windows
    &&& path.len() == 2
    &&& path[1] == ':'
    &&& ('a' <= path[0] && path[0] <= 'z') || ('A' <= path[0] && path[0] <= 'Z')
}

/// A name below a directory. No separator is added behind nothing, behind a separator or behind a
/// bare drive.
pub open spec fn childPath(style: PathStyle, directory: Seq<char>, name: Seq<char>) -> Seq<char> {
    if directory.len() == 0 || isSeparator(style, directory.last()) || isDrive(style, directory) {
        directory + name
    } else {
        directory + seq![mainSeparator(style)] + name
    }
}

/// The path of a name below a directory.
pub fn joinPath(style: PathStyle, directory: &str, name: &str) -> (result: String)
    ensures
        result@ == childPath(style, directory@, name@),
{
    let chars = charsOf(directory);
    let length: usize = chars.len();
    let windows = style == PathStyle::Windows;
    let open = length == 0 || chars[length - 1] == '/' || (windows && chars[length - 1] == '\\');
    let drive = windows && length == 2 && chars[1] == ':' && ((chars[0] >= 'a' && chars[0] <= 'z')
        || (chars[0] >= 'A' && chars[0] <= 'Z'));
    if open || drive {
        return concatText(directory, name);
    }
    proof {
        reveal_strlit("/");
        reveal_strlit("\\");
        assert("/"@ == seq!['/']);
        assert("\\"@ == seq!['\\']);
    }
    match style {
        PathStyle::Unix => concatThree(directory, "/", name),
        PathStyle::Windows => concatThree(directory, "\\", name),
    }
}

/// Whether a path is written with slashes alone and does not name another machine.
pub open spec fn isPlainPath(path: Seq<char>) -> bool {
    !path.contains('\\') && !(path.len() > 1 && path[0] == '/' && path[1] == '/')
}

/// Whether a path starts at the root.
pub open spec fn isRooted(path: Seq<char>) -> bool {
    path.len() > 0 && path[0] == '/'
}

/// How many segments of a path name something: those that are neither empty nor the current directory.
pub open spec fn nameCount(path: Seq<char>) -> nat {
    splitOn(path, '/').filter(|segment: Seq<char>| segment.len() > 0 && segment != "."@).len()
}

/// Whether a path can be cut at a place without cutting a name apart: at its start or beside a slash.
pub open spec fn isBoundary(path: Seq<char>, length: int) -> bool {
    ||| length == 0
    ||| path[length] == '/'
    ||| path[length - 1] == '/'
}

/// Whether cutting a path leaves the directory that holds its last name.
pub open spec fn holdsLastName(path: Seq<char>, length: int) -> bool {
    isBoundary(path, length) && nameCount(path.skip(length)) == 1
}

/// Whether the last name of a path is the same however a machine writes its paths.
pub open spec fn isPortable(path: Seq<char>) -> bool {
    isPlainPath(path) && (isRooted(path) || !path.contains(':'))
}

/// Whether a path is that of the directory that holds another, as far as this is the same on every
/// machine.
pub open spec fn isParent(path: Seq<char>, parent: Option<Seq<char>>) -> bool {
    &&& path.len() == 0 ==> parent is None
    &&& parent matches Some(directory) ==> directory.len() < path.len() && path.take(
        directory.len() as int,
    ) == directory
    &&& isPortable(path) && nameCount(path) > 0 ==> {
        &&& parent is Some
        &&& holdsLastName(path, parent->Some_0.len() as int)
        &&& isRooted(path) ==> parent->Some_0.len() > 0
    }
    &&& isPortable(path) && nameCount(path) == 0 ==> (parent matches Some(directory)
        ==> directory.len() == 0)
}

/// The path without its last part.
///
/// Trusted: `std::path::Path::parent` gives the path without its final component, which is a shorter
/// beginning of it: nothing for an empty path or a root, and an empty path where there is no other
/// component. A slash separates components everywhere, repeated ones and a trailing one count for
/// nothing, and so does a dot behind the start. What a backslash, two leading slashes and a drive mean
/// depends on the machine; of such paths no more than the beginning is stated.
#[verifier::external_body]
fn parentPath(path: &str) -> (result: Option<String>)
    ensures
        isParent(path@, crate::text::optionalView(result)),
{
    std::path::Path::new(path).parent().map(|parent| parent.to_string_lossy().into_owned())
}

// ---------------------------------------------------------------------------
// Failures
// ---------------------------------------------------------------------------

/// Why the data directory cannot be prepared.
#[derive(Debug)]
pub enum DataDirectoryError {
    MissingInstallationDirectory { executablePath: String },
    MissingDataParent { directory: String },
    MigrationConflict { directory: String },
    Io { operation: &'static str, path: String, source: String },
}

/// The mathematical value of a failure.
pub enum DataDirectoryErrorView {
    MissingInstallationDirectory { executablePath: Seq<char> },
    MissingDataParent { directory: Seq<char> },
    MigrationConflict { directory: Seq<char> },
    Io { operation: Seq<char>, path: Seq<char>, source: Seq<char> },
}

impl View for DataDirectoryError {
    type V = DataDirectoryErrorView;

    open spec fn view(&self) -> DataDirectoryErrorView {
        match *self {
            DataDirectoryError::MissingInstallationDirectory { executablePath } =>
                DataDirectoryErrorView::MissingInstallationDirectory {
                executablePath: executablePath@,
            },
            DataDirectoryError::MissingDataParent { directory } =>
                DataDirectoryErrorView::MissingDataParent { directory: directory@ },
            DataDirectoryError::MigrationConflict { directory } =>
                DataDirectoryErrorView::MigrationConflict { directory: directory@ },
            DataDirectoryError::Io { operation, path, source } => DataDirectoryErrorView::Io {
                operation: operation@,
                path: path@,
                source: source@,
            },
        }
    }
}

/// What a failure says.
pub open spec fn dataDirectoryMessage(error: DataDirectoryErrorView) -> Seq<char> {
    match error {
        DataDirectoryErrorView::MissingInstallationDirectory { executablePath } =>
            "可执行文件路径没有有效的安装目录："@ + executablePath,
        DataDirectoryErrorView::MissingDataParent { directory } =>
            "安装数据目录没有有效的父目录："@ + directory,
        DataDirectoryErrorView::MigrationConflict { directory } =>
            "目标数据目录已有内容但缺少 configuration.json，拒绝覆盖："@ + directory,
        DataDirectoryErrorView::Io { operation, path, source } => ("迁移数据目录失败（"@
            + operation + "，"@) + (path + "）："@ + source),
    }
}

impl DataDirectoryError {
    /// What the failure says.
    pub fn message(&self) -> (result: String)
        ensures
            result@ == dataDirectoryMessage(self@),
    {
        match self {
            DataDirectoryError::MissingInstallationDirectory { executablePath } => concatText(
                "可执行文件路径没有有效的安装目录：",
                executablePath.as_str(),
            ),
            DataDirectoryError::MissingDataParent { directory } => concatText(
                "安装数据目录没有有效的父目录：",
                directory.as_str(),
            ),
            DataDirectoryError::MigrationConflict { directory } => concatText(
                "目标数据目录已有内容但缺少 configuration.json，拒绝覆盖：",
                directory.as_str(),
            ),
            DataDirectoryError::Io { operation, path, source } => {
                let first = concatThree("迁移数据目录失败（", operation, "，");
                let second = concatThree(path.as_str(), "）：", source.as_str());
                concatText(first.as_str(), second.as_str())
            },
        }
    }
}

// ---------------------------------------------------------------------------
// The installation directory
// ---------------------------------------------------------------------------

/// The data directory beside an executable, given the directory that holds the executable.
pub open spec fn dataDirectoryBeside(
    style: PathStyle,
    executablePath: Seq<char>,
    parent: Option<Seq<char>>,
) -> Result<Seq<char>, DataDirectoryErrorView> {
    match parent {
        Some(directory) if directory.len() > 0 => Ok(
            childPath(style, directory, applicationDataDirectoryName@),
        ),
        _ => Err(DataDirectoryErrorView::MissingInstallationDirectory { executablePath }),
    }
}

/// The value of a located directory.
pub open spec fn directoryView(result: Result<String, DataDirectoryError>) -> Result<
    Seq<char>,
    DataDirectoryErrorView,
> {
    match result {
        Ok(directory) => Ok(directory@),
        Err(error) => Err(error@),
    }
}

/// The data directory beside an executable whose own directory is known.
pub fn dataDirectoryIn(style: PathStyle, executablePath: &str, parent: &Option<String>) -> (result:
    Result<String, DataDirectoryError>)
    ensures
        directoryView(result) == dataDirectoryBeside(
            style,
            executablePath@,
            crate::text::optionalView(*parent),
        ),
{
    match parent {
        Some(directory) => if !directory.as_str().is_empty() {
            return Ok(joinPath(style, directory.as_str(), applicationDataDirectoryName));
        },
        None => {},
    }
    Err(
        DataDirectoryError::MissingInstallationDirectory {
            executablePath: copyText(executablePath),
        },
    )
}

/// Whether a directory is `data` below a directory that leads to an executable: the one that holds it,
/// as far as the path says the same on every machine.
pub open spec fn isBeside(style: PathStyle, executablePath: Seq<char>, directory: Seq<char>) -> bool {
    exists|length: int|
        0 < length < executablePath.len() && directory == childPath(
            style,
            #[trigger] executablePath.take(length),
            applicationDataDirectoryName@,
        ) && (isPortable(executablePath) ==> holdsLastName(executablePath, length))
}

/// The data directory beside an executable: `data` below the directory that holds it. A path without
/// such a directory is refused; nothing else is fallen back on. Where a path reads otherwise from
/// machine to machine, the machine decides which of its names is the last.
pub fn installationDataDirectory(style: PathStyle, executablePath: &str) -> (result: Result<
    String,
    DataDirectoryError,
>)
    ensures
        match result {
            Ok(directory) => isBeside(style, executablePath@, directory@),
            Err(error) => error@ == (DataDirectoryErrorView::MissingInstallationDirectory {
                executablePath: executablePath@,
            }),
        },
        executablePath@.len() == 0 ==> result is Err,
        isPortable(executablePath@) && isRooted(executablePath@) ==> (result is Ok <==> nameCount(
            executablePath@,
        ) > 0),
        isPortable(executablePath@) && nameCount(executablePath@) > 1 ==> result is Ok,
{
    let parent = parentPath(executablePath);
    let result = dataDirectoryIn(style, executablePath, &parent);
    proof {
        if let Some(directory) = parent {
            assert(executablePath@.take(directory@.len() as int) == directory@);
            assert(executablePath@.skip(0) == executablePath@);
        }
    }
    result
}

/// A file beside the executable, unless the environment names another.
pub open spec fn fileBeside(
    style: PathStyle,
    chosen: Option<Seq<char>>,
    parent: Option<Seq<char>>,
    name: Seq<char>,
) -> Seq<char> {
    match (chosen, parent) {
        (Some(path), _) => path,
        (None, Some(directory)) => childPath(style, directory, name),
        (None, None) => name,
    }
}

/// A file that comes with the executable: the one that the environment names, else the one beside the
/// executable, else the bare name. `parent` is the directory of the executable.
pub fn resolveBesideExecutable(
    style: PathStyle,
    chosen: Option<String>,
    parent: &Option<String>,
    name: &str,
) -> (result: String)
    ensures
        result@ == fileBeside(
            style,
            crate::text::optionalView(chosen),
            crate::text::optionalView(*parent),
            name@,
        ),
{
    match chosen {
        Some(path) => path,
        None => match parent {
            Some(directory) => joinPath(style, directory.as_str(), name),
            None => copyText(name),
        },
    }
}

// ---------------------------------------------------------------------------
// Moving older data
// ---------------------------------------------------------------------------

/// Whether there is anything to move: older data with a configuration, a different place, and no
/// configuration there yet.
pub fn migrationIsNeeded(
    samePlace: bool,
    installationConfigured: bool,
    legacyConfigured: bool,
) -> (result: bool)
    ensures
        result == (!samePlace && !installationConfigured && legacyConfigured),
{
    !samePlace && !installationConfigured && legacyConfigured
}

/// The name of the directory that a copy is made in before it is put in place.
pub fn stagingDirectoryName(id: u128) -> (result: String)
    ensures
        result@ == ".data-migration-"@ + canonicalForm(id),
{
    let id = canonicalText(id);
    concatText(".data-migration-", id.as_str())
}

/// A fresh name for the directory that a copy is made in.
pub fn newStagingDirectoryName() -> (result: String)
    ensures
        exists|id: u128|
            isRandomIdentifier(id) && result@ == ".data-migration-"@ + #[trigger] canonicalForm(id),
{
    stagingDirectoryName(newIdentifier())
}

/// What a move does next.
#[derive(Clone, Copy, Debug, PartialEq, Eq, Structural)]
pub enum MigrationStep {
    /// Create the directory that will hold the data directory.
    CreateParent,
    /// Look whether the data directory present and holds a configuration.
    InspectDestination,
    /// Read the first entry of the data directory.
    ReadDestination,
    /// Remove the empty data directory.
    RemoveDestination,
    /// Rename the older directory.
    MoveDirectory,
    /// Look whether another process put a configuration in place.
    ConfirmMove,
    /// Copy the older directory into the staging directory.
    CopyTree,
    /// Remove the staging directory and look whether another process put a configuration in place.
    ConfirmCopy,
    /// Rename the staging directory.
    CommitStaging,
    /// Look whether another process put a configuration in place and remove the staging directory.
    ConfirmCommit,
    /// Remove the older directory; a failure is only reported.
    RemoveLegacy,
    /// The data directory is ready.
    Done,
    /// The data directory cannot be prepared.
    Failed,
}

/// What the world answers to a step.
#[derive(Debug)]
pub enum MigrationEvent {
    Succeeded,
    /// The step failed in the file system.
    FileSystem(String),
    /// Copying failed.
    CopyFailed(DataDirectoryError),
    /// What was found of the data directory.
    Destination { present: bool, configured: bool },
    /// Whether the data directory holds anything; a failure to begin or to go on reading it.
    Entries { empty: bool },
    Unreadable(String),
    /// Whether a configuration is in place.
    Configured(bool),
}

/// The mathematical value of an answer.
pub enum MigrationEventView {
    Succeeded,
    FileSystem(Seq<char>),
    CopyFailed(DataDirectoryErrorView),
    Destination { present: bool, configured: bool },
    Entries { empty: bool },
    Unreadable(Seq<char>),
    Configured(bool),
}

impl View for MigrationEvent {
    type V = MigrationEventView;

    open spec fn view(&self) -> MigrationEventView {
        match *self {
            MigrationEvent::Succeeded => MigrationEventView::Succeeded,
            MigrationEvent::FileSystem(source) => MigrationEventView::FileSystem(source@),
            MigrationEvent::CopyFailed(error) => MigrationEventView::CopyFailed(error@),
            MigrationEvent::Destination { present, configured } => MigrationEventView::Destination {
                present,
                configured,
            },
            MigrationEvent::Entries { empty } => MigrationEventView::Entries { empty },
            MigrationEvent::Unreadable(source) => MigrationEventView::Unreadable(source@),
            MigrationEvent::Configured(configured) => MigrationEventView::Configured(configured),
        }
    }
}

/// A move under way. `failure` is what it fails with, unless another process finishes the same move.
#[derive(Debug)]
pub struct Migration {
    pub directory: String,
    pub parent: String,
    pub step: MigrationStep,
    pub failure: Option<DataDirectoryError>,
}

/// The mathematical value of a move.
pub struct MigrationView {
    pub directory: Seq<char>,
    pub parent: Seq<char>,
    pub step: MigrationStep,
    pub failure: Option<DataDirectoryErrorView>,
}

impl View for Migration {
    type V = MigrationView;

    open spec fn view(&self) -> MigrationView {
        MigrationView {
            directory: self.directory@,
            parent: self.parent@,
            step: self.step,
            failure: match self.failure {
                Some(error) => Some(error@),
                None => None,
            },
        }
    }
}

/// A move at its start.
pub open spec fn startedMigration(directory: Seq<char>, parent: Seq<char>) -> MigrationView {
    MigrationView { directory, parent, step: MigrationStep::CreateParent, failure: None }
}

/// A move that goes on with a step.
pub open spec fn atStep(migration: MigrationView, step: MigrationStep) -> MigrationView {
    MigrationView { step, ..migration }
}

/// A move that has failed.
pub open spec fn failedWith(
    migration: MigrationView,
    step: MigrationStep,
    failure: DataDirectoryErrorView,
) -> MigrationView {
    MigrationView { step, failure: Some(failure), ..migration }
}

/// A failure of the file system at the data directory.
pub open spec fn directoryFailure(
    migration: MigrationView,
    operation: Seq<char>,
    source: Seq<char>,
) -> DataDirectoryErrorView {
    DataDirectoryErrorView::Io { operation, path: migration.directory, source }
}

/// What an answer leads to. An answer that does not fit the step changes nothing.
pub open spec fn nextMigration(migration: MigrationView, event: MigrationEventView) -> MigrationView {
    match (migration.step, event) {
        (MigrationStep::CreateParent, MigrationEventView::Succeeded) => atStep(
            migration,
            MigrationStep::InspectDestination,
        ),
        (MigrationStep::CreateParent, MigrationEventView::FileSystem(source)) => failedWith(
            migration,
            MigrationStep::Failed,
            DataDirectoryErrorView::Io {
                operation: "创建安装目录"@,
                path: migration.parent,
                source,
            },
        ),
        (
            MigrationStep::InspectDestination,
            MigrationEventView::Destination { present, configured },
        ) => atStep(
            migration,
            if !present || configured {
                MigrationStep::MoveDirectory
            } else {
                MigrationStep::ReadDestination
            },
        ),
        (MigrationStep::ReadDestination, MigrationEventView::FileSystem(source)) => failedWith(
            migration,
            MigrationStep::Failed,
            directoryFailure(migration, "检查安装目录数据"@, source),
        ),
        (MigrationStep::ReadDestination, MigrationEventView::Unreadable(source)) => failedWith(
            migration,
            MigrationStep::Failed,
            directoryFailure(migration, "读取安装目录数据"@, source),
        ),
        (MigrationStep::ReadDestination, MigrationEventView::Entries { empty }) => if empty {
            atStep(migration, MigrationStep::RemoveDestination)
        } else {
            failedWith(
                migration,
                MigrationStep::Failed,
                DataDirectoryErrorView::MigrationConflict { directory: migration.directory },
            )
        },
        (MigrationStep::RemoveDestination, MigrationEventView::Succeeded) => atStep(
            migration,
            MigrationStep::MoveDirectory,
        ),
        (MigrationStep::RemoveDestination, MigrationEventView::FileSystem(source)) => failedWith(
            migration,
            MigrationStep::Failed,
            directoryFailure(migration, "移除空的安装数据目录"@, source),
        ),
        (MigrationStep::MoveDirectory, MigrationEventView::Succeeded) => atStep(
            migration,
            MigrationStep::Done,
        ),
        (MigrationStep::MoveDirectory, MigrationEventView::FileSystem(_)) => atStep(
            migration,
            MigrationStep::ConfirmMove,
        ),
        (MigrationStep::ConfirmMove, MigrationEventView::Configured(configured)) => atStep(
            migration,
            if configured {
                MigrationStep::Done
            } else {
                MigrationStep::CopyTree
            },
        ),
        (MigrationStep::CopyTree, MigrationEventView::Succeeded) => atStep(
            migration,
            MigrationStep::CommitStaging,
        ),
        (MigrationStep::CopyTree, MigrationEventView::CopyFailed(error)) => failedWith(
            migration,
            MigrationStep::ConfirmCopy,
            error,
        ),
        (MigrationStep::ConfirmCopy, MigrationEventView::Configured(configured)) => atStep(
            migration,
            if configured {
                MigrationStep::Done
            } else {
                MigrationStep::Failed
            },
        ),
        (MigrationStep::CommitStaging, MigrationEventView::Succeeded) => atStep(
            migration,
            MigrationStep::RemoveLegacy,
        ),
        (MigrationStep::CommitStaging, MigrationEventView::FileSystem(source)) => failedWith(
            migration,
            MigrationStep::ConfirmCommit,
            directoryFailure(migration, "提交安装目录数据"@, source),
        ),
        (MigrationStep::ConfirmCommit, MigrationEventView::Configured(configured)) => atStep(
            migration,
            if configured {
                MigrationStep::RemoveLegacy
            } else {
                MigrationStep::Failed
            },
        ),
        (
            MigrationStep::RemoveLegacy,
            MigrationEventView::Succeeded | MigrationEventView::FileSystem(_),
        ) => atStep(migration, MigrationStep::Done),
        _ => migration,
    }
}

impl Migration {
    /// Begins a move. A data directory that no directory holds is refused.
    pub fn start(directory: &str, parent: Option<String>) -> (result: Result<
        Migration,
        DataDirectoryError,
    >)
        ensures
            match parent {
                Some(parent) => result matches Ok(migration) && migration@ == startedMigration(
                    directory@,
                    parent@,
                ),
                None => result matches Err(error) && error@ == (
                DataDirectoryErrorView::MissingDataParent { directory: directory@ }),
            },
    {
        match parent {
            Some(parent) => Ok(
                Migration {
                    directory: copyText(directory),
                    parent,
                    step: MigrationStep::CreateParent,
                    failure: None,
                },
            ),
            None => Err(DataDirectoryError::MissingDataParent { directory: copyText(directory) }),
        }
    }

    fn failAt(&mut self, step: MigrationStep, operation: &'static str, source: String)
        ensures
            final(self)@ == failedWith(
                old(self)@,
                step,
                directoryFailure(old(self)@, operation@, source@),
            ),
    {
        self.failure = Some(
            DataDirectoryError::Io { operation, path: copyText(self.directory.as_str()), source },
        );
        self.step = step;
    }

    /// Takes the answer to the current step.
    pub fn migrateLegacyDataDirectory(&mut self, event: MigrationEvent)
        ensures
            final(self)@ == nextMigration(old(self)@, event@),
    {
        match (self.step, event) {
            (MigrationStep::CreateParent, MigrationEvent::Succeeded) => {
                self.step = MigrationStep::InspectDestination;
            },
            (MigrationStep::CreateParent, MigrationEvent::FileSystem(source)) => {
                self.failure = Some(
                    DataDirectoryError::Io {
                        operation: "创建安装目录",
                        path: copyText(self.parent.as_str()),
                        source,
                    },
                );
                self.step = MigrationStep::Failed;
            },
            (
                MigrationStep::InspectDestination,
                MigrationEvent::Destination { present, configured },
            ) => {
                self.step = if !present || configured {
                    MigrationStep::MoveDirectory
                } else {
                    MigrationStep::ReadDestination
                };
            },
            (MigrationStep::ReadDestination, MigrationEvent::FileSystem(source)) => {
                self.failAt(MigrationStep::Failed, "检查安装目录数据", source);
            },
            (MigrationStep::ReadDestination, MigrationEvent::Unreadable(source)) => {
                self.failAt(MigrationStep::Failed, "读取安装目录数据", source);
            },
            (MigrationStep::ReadDestination, MigrationEvent::Entries { empty }) => {
                if empty {
                    self.step = MigrationStep::RemoveDestination;
                } else {
                    self.failure = Some(
                        DataDirectoryError::MigrationConflict {
                            directory: copyText(self.directory.as_str()),
                        },
                    );
                    self.step = MigrationStep::Failed;
                }
            },
            (MigrationStep::RemoveDestination, MigrationEvent::Succeeded) => {
                self.step = MigrationStep::MoveDirectory;
            },
            (MigrationStep::RemoveDestination, MigrationEvent::FileSystem(source)) => {
                self.failAt(MigrationStep::Failed, "移除空的安装数据目录", source);
            },
            (MigrationStep::MoveDirectory, MigrationEvent::Succeeded) => {
                self.step = MigrationStep::Done;
            },
            (MigrationStep::MoveDirectory, MigrationEvent::FileSystem(_)) => {
                self.step = MigrationStep::ConfirmMove;
            },
            (MigrationStep::ConfirmMove, MigrationEvent::Configured(configured)) => {
                self.step = if configured {
                    MigrationStep::Done
                } else {
                    MigrationStep::CopyTree
                };
            },
            (MigrationStep::CopyTree, MigrationEvent::Succeeded) => {
                self.step = MigrationStep::CommitStaging;
            },
            (MigrationStep::CopyTree, MigrationEvent::CopyFailed(error)) => {
                self.failure = Some(error);
                self.step = MigrationStep::ConfirmCopy;
            },
            (MigrationStep::ConfirmCopy, MigrationEvent::Configured(configured)) => {
                self.step = if configured {
                    MigrationStep::Done
                } else {
                    MigrationStep::Failed
                };
            },
            (MigrationStep::CommitStaging, MigrationEvent::Succeeded) => {
                self.step = MigrationStep::RemoveLegacy;
            },
            (MigrationStep::CommitStaging, MigrationEvent::FileSystem(source)) => {
                self.failAt(MigrationStep::ConfirmCommit, "提交安装目录数据", source);
            },
            (MigrationStep::ConfirmCommit, MigrationEvent::Configured(configured)) => {
                self.step = if configured {
                    MigrationStep::RemoveLegacy
                } else {
                    MigrationStep::Failed
                };
            },
            (MigrationStep::RemoveLegacy, MigrationEvent::Succeeded) => {
                self.step = MigrationStep::Done;
            },
            (MigrationStep::RemoveLegacy, MigrationEvent::FileSystem(_)) => {
                self.step = MigrationStep::Done;
            },
            _ => {},
        }
    }
}

/// What holds of every move: one that failed says why.
pub open spec fn isMigrationSound(migration: MigrationView) -> bool {
    migration.step is Failed || migration.step is ConfirmCopy || migration.step is ConfirmCommit
        ==> migration.failure is Some
}

/// Every move keeps what it must say of a failure.
pub proof fn lawFailedMigrationSaysWhy(
    directory: Seq<char>,
    parent: Seq<char>,
    migration: MigrationView,
    event: MigrationEventView,
)
    ensures
        isMigrationSound(startedMigration(directory, parent)),
        isMigrationSound(migration) ==> isMigrationSound(nextMigration(migration, event)),
{
}

/// The older data is removed only once a configuration is in place: after the complete copy was put
/// there, or after another process did the same.
pub proof fn lawOlderDataOutlivesTheMove(migration: MigrationView, event: MigrationEventView)
    ensures
        nextMigration(migration, event).step is RemoveLegacy && !(migration.step is RemoveLegacy)
            ==> (migration.step is CommitStaging && event is Succeeded) || (
        migration.step is ConfirmCommit && event == MigrationEventView::Configured(true)),
        nextMigration(migration, event).step is CommitStaging && !(migration.step is CommitStaging)
            ==> migration.step is CopyTree && event is Succeeded,
{
}

/// Unknown data is never replaced: nothing is put in the place of a directory that holds anything but
/// no configuration.
pub proof fn lawUnknownDataIsKept(migration: MigrationView, event: MigrationEventView)
    ensures
        nextMigration(migration, event).step is MoveDirectory && !(migration.step is MoveDirectory)
            ==> (migration.step is InspectDestination && (event matches
        MigrationEventView::Destination { present, configured } && (!present || configured))) || (
        migration.step is RemoveDestination && event is Succeeded),
        nextMigration(migration, event).step is RemoveDestination && !(
        migration.step is RemoveDestination) ==> migration.step is ReadDestination && event
            == (MigrationEventView::Entries { empty: true }),
        migration.step is ReadDestination && event == (MigrationEventView::Entries { empty: false })
            ==> nextMigration(migration, event) == failedWith(
            migration,
            MigrationStep::Failed,
            DataDirectoryErrorView::MigrationConflict { directory: migration.directory },
        ),
{
}

/// How many steps a move may still take.
pub open spec fn remainingSteps(step: MigrationStep) -> nat {
    match step {
        MigrationStep::CreateParent => 10,
        MigrationStep::InspectDestination => 9,
        MigrationStep::ReadDestination => 8,
        MigrationStep::RemoveDestination => 7,
        MigrationStep::MoveDirectory => 6,
        MigrationStep::ConfirmMove => 5,
        MigrationStep::CopyTree => 4,
        MigrationStep::CommitStaging => 3,
        MigrationStep::ConfirmCopy => 2,
        MigrationStep::ConfirmCommit => 2,
        MigrationStep::RemoveLegacy => 1,
        MigrationStep::Done => 0,
        MigrationStep::Failed => 0,
    }
}

/// A move ends: every answer that fits its step brings it closer to the end, and an ended move stays
/// as it is.
pub proof fn lawMigrationEnds(migration: MigrationView, event: MigrationEventView)
    ensures
        nextMigration(migration, event) == migration || remainingSteps(
            nextMigration(migration, event).step,
        ) < remainingSteps(migration.step),
        migration.step is Done || migration.step is Failed ==> nextMigration(migration, event)
            == migration,
{
}

// ---------------------------------------------------------------------------
// Copying
// ---------------------------------------------------------------------------

/// What an entry of a directory is.
#[derive(Clone, Copy, Debug, PartialEq, Eq, Structural)]
pub enum EntryKind {
    Directory,
    File,
    /// A link or another special file.
    Special,
}

/// What is done with an entry.
#[derive(Clone, Copy, Debug, PartialEq, Eq, Structural)]
pub enum EntryAction {
    /// Copy what the directory holds.
    Descend,
    /// Copy the file and bring it to the disk.
    CopyFile,
}

/// Decides what is done with an entry. Links and special files are refused: a copy must not leave the
/// directory that it copies.
pub fn copyDirectoryEntry(kind: EntryKind, sourcePath: &str) -> (result: Result<
    EntryAction,
    DataDirectoryError,
>)
    ensures
        match kind {
            EntryKind::Directory => result == Ok::<EntryAction, DataDirectoryError>(
                EntryAction::Descend,
            ),
            EntryKind::File => result == Ok::<EntryAction, DataDirectoryError>(
                EntryAction::CopyFile,
            ),
            EntryKind::Special => result matches Err(error) && error@ == (
            DataDirectoryErrorView::Io {
                operation: "拒绝迁移特殊文件"@,
                path: sourcePath@,
                source: "数据目录包含符号链接或特殊文件"@,
            }),
        },
{
    match kind {
        EntryKind::Directory => Ok(EntryAction::Descend),
        EntryKind::File => Ok(EntryAction::CopyFile),
        EntryKind::Special => Err(
            DataDirectoryError::Io {
                operation: "拒绝迁移特殊文件",
                path: copyText(sourcePath),
                source: copyText("数据目录包含符号链接或特殊文件"),
            },
        ),
    }
}

/// Where copying a directory may fail in the file system.
#[derive(Clone, Copy, Debug, PartialEq, Eq, Structural)]
pub enum CopyStage {
    CreateTarget,
    ReadSource,
    ReadEntry,
    ReadKind,
    CopyFile,
    SyncFile,
}

/// What was attempted at a stage.
pub open spec fn copyOperation(stage: CopyStage) -> Seq<char> {
    match stage {
        CopyStage::CreateTarget => "创建迁移暂存目录"@,
        CopyStage::ReadSource => "读取旧版用户数据目录"@,
        CopyStage::ReadEntry => "读取旧版用户数据项"@,
        CopyStage::ReadKind => "读取旧版用户数据类型"@,
        CopyStage::CopyFile => "复制旧版用户数据文件"@,
        CopyStage::SyncFile => "同步迁移数据文件"@,
    }
}

/// The failure of a stage: creating and bringing to the disk fail at the copy, all else at what is
/// copied.
pub fn copyFailure(stage: CopyStage, sourcePath: &str, targetPath: &str, source: String) -> (result:
    DataDirectoryError)
    ensures
        result@ == (DataDirectoryErrorView::Io {
            operation: copyOperation(stage),
            path: if stage is CreateTarget || stage is SyncFile {
                targetPath@
            } else {
                sourcePath@
            },
            source: source@,
        }),
{
    match stage {
        CopyStage::CreateTarget => DataDirectoryError::Io {
            operation: "创建迁移暂存目录",
            path: copyText(targetPath),
            source,
        },
        CopyStage::ReadSource => DataDirectoryError::Io {
            operation: "读取旧版用户数据目录",
            path: copyText(sourcePath),
            source,
        },
        CopyStage::ReadEntry => DataDirectoryError::Io {
            operation: "读取旧版用户数据项",
            path: copyText(sourcePath),
            source,
        },
        CopyStage::ReadKind => DataDirectoryError::Io {
            operation: "读取旧版用户数据类型",
            path: copyText(sourcePath),
            source,
        },
        CopyStage::CopyFile => DataDirectoryError::Io {
            operation: "复制旧版用户数据文件",
            path: copyText(sourcePath),
            source,
        },
        CopyStage::SyncFile => DataDirectoryError::Io {
            operation: "同步迁移数据文件",
            path: copyText(targetPath),
            source,
        },
    }
}

/// A path below a directory is the directory, one separator and the name: the separator of the system where
/// none stands there yet.
pub proof fn lawChildFollowsItsDirectory(style: PathStyle, directory: Seq<char>, name: Seq<char>)
    ensures
        directory.len() > 0 && directory.last() != '/' && directory.last() != '\\' && directory.last()
            != ':' ==> childPath(style, directory, name) == directory + seq![
            if style == PathStyle::Windows {
                '\\'
            } else {
                '/'
            },
        ] + name,
        directory.len() > 0 && directory.last() == '/' ==> childPath(style, directory, name)
            == directory + name,
        directory.len() > 0 && directory.last() == '\\' && style == PathStyle::Windows ==> childPath(
            style,
            directory,
            name,
        ) == directory + name,
        directory.len() == 0 ==> childPath(style, directory, name) == name,
        style == PathStyle::Unix && directory.len() > 0 && directory.last() == ':' ==> childPath(
            style,
            directory,
            name,
        ) == directory + seq!['/'] + name,
{
    if directory.len() == 0 {
        assert(directory + name =~= name);
    }
}

/// The data lie in the directory `data` beside the program; a program without a directory has none.
pub proof fn lawDataLieBesideTheProgram(
    style: PathStyle,
    executable: Seq<char>,
    directory: Seq<char>,
    chosen: Option<Seq<char>>,
    name: Seq<char>,
)
    ensures
        directory.len() > 0 ==> dataDirectoryBeside(style, executable, Some(directory)) == Ok::<
            Seq<char>,
            DataDirectoryErrorView,
        >(childPath(style, directory, "data"@)),
        dataDirectoryBeside(style, executable, None) == Err::<Seq<char>, DataDirectoryErrorView>(
            DataDirectoryErrorView::MissingInstallationDirectory { executablePath: executable },
        ),
        dataDirectoryBeside(style, executable, Some(Seq::empty())) == Err::<
            Seq<char>,
            DataDirectoryErrorView,
        >(DataDirectoryErrorView::MissingInstallationDirectory { executablePath: executable }),
        chosen matches Some(path) ==> fileBeside(style, chosen, Some(directory), name) == path,
        fileBeside(style, None, Some(directory), name) == childPath(style, directory, name),
        fileBeside(style, None, None, name) == name,
{
}

/// A migration that meets no failure creates the parent, clears an empty destination away and moves the older
/// directory; where it cannot be moved it is copied, the copy is put in place and the older one removed.
pub proof fn lawMigrationTakesItsWay(migration: MigrationView, source: Seq<char>)
    ensures
        ({
            let leads = |step: MigrationStep, event: MigrationEventView, to: MigrationStep|
                nextMigration(MigrationView { step, ..migration }, event) == (MigrationView {
                    step: to,
                    ..migration
                });
            &&& leads(
                MigrationStep::CreateParent,
                MigrationEventView::Succeeded,
                MigrationStep::InspectDestination,
            )
            &&& leads(
                MigrationStep::InspectDestination,
                MigrationEventView::Destination { present: false, configured: false },
                MigrationStep::MoveDirectory,
            )
            &&& leads(
                MigrationStep::InspectDestination,
                MigrationEventView::Destination { present: true, configured: false },
                MigrationStep::ReadDestination,
            )
            &&& leads(
                MigrationStep::ReadDestination,
                MigrationEventView::Entries { empty: true },
                MigrationStep::RemoveDestination,
            )
            &&& leads(
                MigrationStep::RemoveDestination,
                MigrationEventView::Succeeded,
                MigrationStep::MoveDirectory,
            )
            &&& leads(
                MigrationStep::MoveDirectory,
                MigrationEventView::Succeeded,
                MigrationStep::Done,
            )
            &&& leads(
                MigrationStep::MoveDirectory,
                MigrationEventView::FileSystem(source),
                MigrationStep::ConfirmMove,
            )
            &&& leads(
                MigrationStep::ConfirmMove,
                MigrationEventView::Configured(true),
                MigrationStep::Done,
            )
            &&& leads(
                MigrationStep::ConfirmMove,
                MigrationEventView::Configured(false),
                MigrationStep::CopyTree,
            )
            &&& leads(
                MigrationStep::CopyTree,
                MigrationEventView::Succeeded,
                MigrationStep::CommitStaging,
            )
            &&& leads(
                MigrationStep::CommitStaging,
                MigrationEventView::Succeeded,
                MigrationStep::RemoveLegacy,
            )
            &&& leads(
                MigrationStep::RemoveLegacy,
                MigrationEventView::Succeeded,
                MigrationStep::Done,
            )
            &&& leads(
                MigrationStep::RemoveLegacy,
                MigrationEventView::FileSystem(source),
                MigrationStep::Done,
            )
            &&& leads(
                MigrationStep::ConfirmCopy,
                MigrationEventView::Configured(true),
                MigrationStep::Done,
            )
            &&& leads(
                MigrationStep::ConfirmCopy,
                MigrationEventView::Configured(false),
                MigrationStep::Failed,
            )
            &&& leads(
                MigrationStep::ConfirmCommit,
                MigrationEventView::Configured(true),
                MigrationStep::RemoveLegacy,
            )
            &&& leads(
                MigrationStep::ConfirmCommit,
                MigrationEventView::Configured(false),
                MigrationStep::Failed,
            )
        }),
{
}

/// A failure of the file system names what was tried, on which path and why; a failed copy keeps its own
/// reason.
pub proof fn lawMigrationNamesItsFailure(
    migration: MigrationView,
    source: Seq<char>,
    error: DataDirectoryErrorView,
)
    requires
        migration.step is CreateParent || migration.step is ReadDestination || migration.step
            is RemoveDestination || migration.step is CommitStaging || migration.step is CopyTree,
    ensures
        !(migration.step is CopyTree) ==> (nextMigration(
            migration,
            MigrationEventView::FileSystem(source),
        ).failure matches Some(DataDirectoryErrorView::Io { operation, path, source: cause })
            && cause == source && operation.len() > 0 && path == if migration.step is CreateParent {
            migration.parent
        } else {
            migration.directory
        }),
        migration.step is CopyTree ==> nextMigration(
            migration,
            MigrationEventView::CopyFailed(error),
        ).failure == Some(error) && nextMigration(
            migration,
            MigrationEventView::CopyFailed(error),
        ).step is ConfirmCopy,
        migration.step is CreateParent || migration.step is ReadDestination || migration.step
            is RemoveDestination ==> nextMigration(
            migration,
            MigrationEventView::FileSystem(source),
        ).step is Failed,
        migration.step is CommitStaging ==> nextMigration(
            migration,
            MigrationEventView::FileSystem(source),
        ).step is ConfirmCommit,
{
    reveal_strlit("创建安装目录");
    reveal_strlit("检查安装目录数据");
    reveal_strlit("移除空的安装数据目录");
    reveal_strlit("提交安装目录数据");
}

/// A failed copy names what it was at, and every failure of the data directory names the path that it is about.
pub proof fn lawDirectoryFailureNamesItsPath(path: Seq<char>, operation: Seq<char>, source: Seq<char>)
    ensures
        copyOperation(CopyStage::CreateTarget) == "创建迁移暂存目录"@,
        copyOperation(CopyStage::ReadSource) == "读取旧版用户数据目录"@,
        copyOperation(CopyStage::ReadEntry) == "读取旧版用户数据项"@,
        copyOperation(CopyStage::ReadKind) == "读取旧版用户数据类型"@,
        copyOperation(CopyStage::CopyFile) == "复制旧版用户数据文件"@,
        copyOperation(CopyStage::SyncFile) == "同步迁移数据文件"@,
        dataDirectoryMessage(DataDirectoryErrorView::MissingInstallationDirectory { executablePath: path })
            == "可执行文件路径没有有效的安装目录："@ + path,
        dataDirectoryMessage(DataDirectoryErrorView::MissingDataParent { directory: path })
            == "安装数据目录没有有效的父目录："@ + path,
        dataDirectoryMessage(DataDirectoryErrorView::MigrationConflict { directory: path })
            == "目标数据目录已有内容但缺少 configuration.json，拒绝覆盖："@ + path,
        dataDirectoryMessage(DataDirectoryErrorView::Io { operation, path, source })
            == "迁移数据目录失败（"@ + operation + "，"@ + path + "）："@ + source,
{
    let whole = "迁移数据目录失败（"@ + operation + "，"@ + path + "）："@ + source;
    assert(dataDirectoryMessage(DataDirectoryErrorView::Io { operation, path, source }) =~= whole);
}

} // verus!
