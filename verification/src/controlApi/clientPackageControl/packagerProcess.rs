//! What becomes of one run of the packager process and of the files it leaves.

use crate::controlApi::dataDirectory::{fileBeside, resolveBesideExecutable, PathStyle};
use crate::text::{
    charsOf, concatText, concatThree, copyText, equalText, joinTexts, joined, optionalView,
    textFromBytes, textOfRange, trimText, trimmed, views,
};
use vstd::prelude::*;
use vstd::utf8::{decode_utf8, valid_utf8};

verus! {

/// How many bytes the packager may write to each of its outputs.
pub const maximumClientPackagerOutputBytes: usize = 65536;

/// A failed run, and whether the process is known to have exited.
#[derive(Debug)]
pub struct ClientPackagerRunError {
    pub reason: String,
    pub processExited: bool,
}

/// The mathematical value of a failed run.
pub struct RunErrorView {
    pub reason: Seq<char>,
    pub processExited: bool,
}

impl View for ClientPackagerRunError {
    type V = RunErrorView;

    open spec fn view(&self) -> RunErrorView {
        RunErrorView { reason: self.reason@, processExited: self.processExited }
    }
}

/// A failure after the process has exited.
pub open spec fn exitedError(reason: Seq<char>) -> RunErrorView {
    RunErrorView { reason, processExited: true }
}

/// A failure after the process has exited.
pub fn exitedPackagerError(reason: String) -> (result: ClientPackagerRunError)
    ensures
        result@ == exitedError(reason@),
{
    ClientPackagerRunError { reason, processExited: true }
}

/// What stopping a process came to: nothing to report, or the reason why its exit is unknown.
pub open spec fn terminationProblem(
    alreadyExited: bool,
    killError: Option<Seq<char>>,
    exitSeen: bool,
) -> Option<Seq<char>> {
    if alreadyExited || exitSeen {
        None
    } else {
        Some(
            "等待已终止打包器退出超时，服务已阻止后续生成"@ + match killError {
                Some(error) => "；终止请求失败："@ + error,
                None => Seq::empty(),
            },
        )
    }
}

/// Judges an attempt to stop the packager. `exitSeen` tells whether the wait ended within its
/// bound.
pub fn terminateClientPackager(
    alreadyExited: bool,
    killError: &Option<String>,
    exitSeen: bool,
) -> (result: Option<String>)
    ensures
        optionalView(result) == terminationProblem(
            alreadyExited,
            optionalView(*killError),
            exitSeen,
        ),
{
    if alreadyExited || exitSeen {
        return None;
    }
    let start = copyText("等待已终止打包器退出超时，服务已阻止后续生成");
    match killError {
        Some(error) => {
            let detail = concatText("；终止请求失败：", error.as_str());
            Some(concatText(start.as_str(), detail.as_str()))
        },
        None => {
            assert(start@ + Seq::<char>::empty() == start@);
            Some(start)
        },
    }
}

/// A failure after the process was started: its exit is known only if it could be stopped.
pub open spec fn spawnedFailure(reason: Seq<char>, problem: Option<Seq<char>>) -> RunErrorView {
    match problem {
        None => exitedError(reason),
        Some(problem) => RunErrorView { reason: reason + "；"@ + problem, processExited: false },
    }
}

/// Reports a failure after the process was started.
pub fn terminateSpawnedPackager(reason: String, problem: &Option<String>) -> (result:
    ClientPackagerRunError)
    ensures
        result@ == spawnedFailure(reason@, optionalView(*problem)),
{
    match problem {
        None => exitedPackagerError(reason),
        Some(problem) => ClientPackagerRunError {
            reason: concatThree(reason.as_str(), "；", problem.as_str()),
            processExited: false,
        },
    }
}

/// The bytes of one output, or why they cannot be used.
pub open spec fn outputVerdict(
    bytes: Seq<u8>,
    readError: Option<Seq<char>>,
) -> Result<Seq<u8>, Seq<char>> {
    match readError {
        Some(error) => Err("读取独立客户端打包器输出失败："@ + error),
        None => if bytes.len() > maximumClientPackagerOutputBytes {
            Err("独立客户端打包器输出超过协议上限"@)
        } else {
            Ok(bytes)
        },
    }
}

/// Checks one output. The reader stops one byte past the bound.
pub fn readClientPackagerOutput(bytes: Vec<u8>, readError: &Option<String>) -> (result: Result<
    Vec<u8>,
    String,
>)
    ensures
        match result {
            Ok(output) => outputVerdict(bytes@, optionalView(*readError)) == Ok::<
                Seq<u8>,
                Seq<char>,
            >(output@),
            Err(reason) => outputVerdict(bytes@, optionalView(*readError)) == Err::<
                Seq<u8>,
                Seq<char>,
            >(reason@),
        },
{
    match readError {
        Some(error) => Err(concatText("读取独立客户端打包器输出失败：", error.as_str())),
        None => if bytes.len() > maximumClientPackagerOutputBytes {
            Err(copyText("独立客户端打包器输出超过协议上限"))
        } else {
            Ok(bytes)
        },
    }
}

/// What a run that ended within its time left.
#[derive(Debug)]
pub struct PackagerOutput {
    pub success: bool,
    pub stdout: Vec<u8>,
    pub stderr: Vec<u8>,
}

/// Puts the parts of a finished run together: a failed input comes first, then the two outputs in
/// order.
pub fn executeClientPackager(
    success: bool,
    inputError: Option<String>,
    stdout: Result<Vec<u8>, String>,
    stderr: Result<Vec<u8>, String>,
) -> (result: Result<PackagerOutput, ClientPackagerRunError>)
    ensures
        match (inputError, stdout, stderr) {
            (Some(reason), _, _) => result is Err && result->Err_0@ == exitedError(
                ("写入独立客户端打包器秘密输入失败："@ + reason@),
            ),
            (None, Err(reason), _) => result is Err && result->Err_0@ == exitedError(reason@),
            (None, Ok(_), Err(reason)) => result is Err && result->Err_0@ == exitedError(reason@),
            (None, Ok(output), Ok(errors)) => result == Ok::<
                PackagerOutput,
                ClientPackagerRunError,
            >(PackagerOutput { success, stdout: output, stderr: errors }),
        },
{
    match inputError {
        Some(reason) => Err(
            exitedPackagerError(
                concatText("写入独立客户端打包器秘密输入失败：", reason.as_str()),
            ),
        ),
        None => match stdout {
            Err(reason) => Err(exitedPackagerError(reason)),
            Ok(output) => match stderr {
                Err(reason) => Err(exitedPackagerError(reason)),
                Ok(errors) => Ok(PackagerOutput { success, stdout: output, stderr: errors }),
            },
        },
    }
}

/// Why a finished run does not count as a success, if so.
pub open spec fn runProblem(output: PackagerOutput) -> Option<Seq<char>> {
    if output.stdout@.len() > maximumClientPackagerOutputBytes || output.stderr@.len()
        > maximumClientPackagerOutputBytes {
        Some("独立客户端打包器输出超过协议上限"@)
    } else if !output.success {
        if valid_utf8(output.stderr@) {
            Some("独立客户端打包器失败："@ + trimmed(decode_utf8(output.stderr@)))
        } else {
            Some("独立客户端打包器错误输出不是 UTF-8"@)
        }
    } else if output.stderr@.len() > 0 {
        Some("独立客户端打包器成功时写入了错误输出"@)
    } else {
        None
    }
}

/// Judges a finished run; what it wrote to its standard output is read next only on success.
pub fn runClientPackager(output: &PackagerOutput) -> (result: Option<ClientPackagerRunError>)
    ensures
        match result {
            None => runProblem(*output) is None,
            Some(error) => runProblem(*output) is Some && error@ == exitedError(
                runProblem(*output)->0,
            ),
        },
{
    if output.stdout.len() > maximumClientPackagerOutputBytes || output.stderr.len()
        > maximumClientPackagerOutputBytes {
        return Some(exitedPackagerError(copyText("独立客户端打包器输出超过协议上限")));
    }
    if !output.success {
        return match textFromBytes(output.stderr.as_slice()) {
            None => Some(exitedPackagerError(copyText("独立客户端打包器错误输出不是 UTF-8"))),
            Some(text) => {
                let reason = trimText(text.as_str());
                Some(
                    exitedPackagerError(concatText("独立客户端打包器失败：", reason.as_str())),
                )
            },
        };
    }
    if output.stderr.len() > 0 {
        return Some(exitedPackagerError(copyText("独立客户端打包器成功时写入了错误输出")));
    }
    None
}

/// A failure joined by what went wrong while its files were removed.
pub open spec fn withCleanup(reason: Seq<char>, cleanup: Option<Seq<char>>) -> Seq<char> {
    match cleanup {
        None => reason,
        Some(problem) => reason + "；清理客户端临时文件失败："@ + problem,
    }
}

/// Reports a failed build whose files were removed, or could not be.
pub fn cleanupFailedClientPackage(reason: String, cleanup: &Option<String>) -> (result:
    ClientPackagerRunError)
    ensures
        result@ == exitedError(withCleanup(reason@, optionalView(*cleanup))),
{
    match cleanup {
        None => exitedPackagerError(reason),
        Some(problem) => exitedPackagerError(
            concatThree(reason.as_str(), "；清理客户端临时文件失败：", problem.as_str()),
        ),
    }
}

/// Reports a failed run. Its files may be touched only once the process has exited, so `cleanup`
/// counts in that case alone.
pub fn concludeFailedRun(error: ClientPackagerRunError, cleanup: &Option<String>) -> (result:
    ClientPackagerRunError)
    ensures
        !error.processExited ==> result@ == error@,
        error.processExited ==> result@ == exitedError(
            withCleanup(error.reason@, optionalView(*cleanup)),
        ),
{
    if error.processExited {
        cleanupFailedClientPackage(error.reason, cleanup)
    } else {
        error
    }
}

/// The names of the files that a run may leave beside its destination.
pub open spec fn transientNames(destination: Seq<char>) -> Seq<Seq<char>> {
    seq![
        destination,
        "."@ + destination + ".raw.apk"@,
        "."@ + destination + ".signed.apk"@,
    ]
}

/// The names of the files that a run may leave beside its destination.
pub fn transientPackageFiles(destinationName: &str) -> (result: Vec<String>)
    ensures
        views(result@) == transientNames(destinationName@),
{
    let mut names: Vec<String> = Vec::new();
    names.push(copyText(destinationName));
    names.push(concatThree(".", destinationName, ".raw.apk"));
    names.push(concatThree(".", destinationName, ".signed.apk"));
    assert(views(names@) == transientNames(destinationName@));
    names
}

/// The three names of a run differ from each other.
pub proof fn lawTransientNamesDiffer(destination: Seq<char>)
    ensures
        forall|i: int, j: int|
            0 <= i < j < 3 ==> #[trigger] transientNames(destination)[i]
                != #[trigger] transientNames(destination)[j],
{
    reveal_strlit(".");
    reveal_strlit(".raw.apk");
    reveal_strlit(".signed.apk");
    let names = transientNames(destination);
    assert(names[0].len() < names[1].len() < names[2].len());
}

/// One text for all that could not be removed; `None` when everything is gone.
pub fn packageCleanupResult(failures: &Vec<String>) -> (result: Option<String>)
    ensures
        failures@.len() == 0 ==> result is None,
        failures@.len() > 0 ==> result is Some && result->0@ == joined(views(failures@), "；"@),
{
    if failures.len() == 0 {
        None
    } else {
        Some(joinTexts(failures, "；"))
    }
}

/// What removing a file came to.
#[derive(Debug)]
pub enum RemovalOutcome {
    /// The file is gone, or never was.
    Gone,
    /// An entry of the directory could not be read.
    Unreadable(String),
    Failed { path: String, cause: String },
}

/// What a removal says, where it failed.
pub open spec fn removalFailure(outcome: RemovalOutcome) -> Seq<Seq<char>> {
    match outcome {
        RemovalOutcome::Gone => Seq::empty(),
        RemovalOutcome::Unreadable(cause) => seq!["读取目录项失败："@ + cause@],
        RemovalOutcome::Failed { path, cause } => seq![path@ + "："@ + cause@],
    }
}

/// What failed removals say, in their order.
pub open spec fn removalFailures(outcomes: Seq<RemovalOutcome>) -> Seq<Seq<char>>
    decreases outcomes.len(),
{
    if outcomes.len() == 0 {
        Seq::empty()
    } else {
        removalFailures(outcomes.drop_last()) + removalFailure(outcomes.last())
    }
}

/// Settles the removal of several files, all of which are tried: one text for what could not be removed.
pub fn removeOrphanedPackageFiles(outcomes: &Vec<RemovalOutcome>) -> (result: Option<String>)
    ensures
        match result {
            None => removalFailures(outcomes@).len() == 0,
            Some(text) => removalFailures(outcomes@).len() > 0 && text@ == joined(
                removalFailures(outcomes@),
                "；"@,
            ),
        },
{
    let mut failures: Vec<String> = Vec::new();
    let mut i: usize = 0;
    assert(views(failures@) == removalFailures(outcomes@.take(0)));
    while i < outcomes.len()
        invariant
            i <= outcomes.len(),
            views(failures@) == removalFailures(outcomes@.take(i as int)),
        decreases outcomes.len() - i,
    {
        let ghost before = views(failures@);
        assert(outcomes@.take(i + 1).drop_last() == outcomes@.take(i as int));
        assert(outcomes@.take(i + 1).last() == outcomes@[i as int]);
        match &outcomes[i] {
            RemovalOutcome::Gone => {
                assert(before + Seq::<Seq<char>>::empty() == before);
            },
            RemovalOutcome::Unreadable(cause) => {
                failures.push(concatText("读取目录项失败：", cause.as_str()));
                assert(views(failures@) == before + removalFailure(outcomes@[i as int]));
            },
            RemovalOutcome::Failed { path, cause } => {
                failures.push(concatThree(path.as_str(), "：", cause.as_str()));
                assert(views(failures@) == before + removalFailure(outcomes@[i as int]));
            },
        }
        i += 1;
    }
    assert(outcomes@.take(i as int) == outcomes@);
    assert(views(failures@).len() == failures@.len());
    packageCleanupResult(&failures)
}

/// Where the last dot of a name is; `-1` where it has none.
pub open spec fn lastDot(name: Seq<char>) -> int
    decreases name.len(),
{
    if name.len() == 0 {
        -1
    } else if name.last() == '.' {
        name.len() - 1
    } else {
        lastDot(name.drop_last())
    }
}

/// The extension of a file's name: what is behind its last dot, unless that dot begins the name.
pub open spec fn extensionOf(name: Seq<char>) -> Option<Seq<char>> {
    if lastDot(name) > 0 {
        Some(name.skip(lastDot(name) + 1))
    } else {
        None
    }
}

/// What a file of the package directory is, by its extension.
#[derive(Clone, Copy, Debug, PartialEq, Eq, Structural)]
pub enum PackageEntry {
    /// A package that an interrupted run left; it is removed at start.
    Package,
    /// The record of a finished package.
    Record,
    /// Anything else; it is left alone.
    Other,
}

/// Tells what a file of the package directory is by its name.
pub fn classifyEntry(name: &str) -> (result: PackageEntry)
    ensures
        result == match extensionOf(name@) {
            Some(text) => if text == "apk"@ {
                PackageEntry::Package
            } else if text == "json"@ {
                PackageEntry::Record
            } else {
                PackageEntry::Other
            },
            None => PackageEntry::Other,
        },
{
    let chars = charsOf(name);
    let mut end: usize = chars.len();
    assert(chars@.take(end as int) == chars@);
    while end > 0
        invariant
            end <= chars@.len(),
            chars@ == name@,
            lastDot(name@) == lastDot(name@.take(end as int)),
        decreases end,
    {
        assert(name@.take(end as int).drop_last() == name@.take(end - 1));
        assert(name@.take(end as int).last() == chars@[end - 1]);
        if chars[end - 1] == '.' {
            if end == 1 {
                return PackageEntry::Other;
            }
            let extension = textOfRange(&chars, end, chars.len());
            assert(extension@ == name@.skip(end as int));
            if equalText(extension.as_str(), "apk") {
                return PackageEntry::Package;
            }
            if equalText(extension.as_str(), "json") {
                return PackageEntry::Record;
            }
            return PackageEntry::Other;
        }
        end -= 1;
    }
    assert(name@.take(0).len() == 0);
    PackageEntry::Other
}

// ---------------------------------------------------------------------------
// What a run needs
// ---------------------------------------------------------------------------

pub const clientPackagerEnvironment: &'static str = "CAPTURE_CLIENT_PACKAGER_EXECUTABLE";

pub const clientPackagerFileName: &'static str = "clientPackager.exe";

pub const clientTemplateEnvironment: &'static str = "CAPTURE_CLIENT_TEMPLATE_PATH";

pub const clientTemplateFileName: &'static str = "clientTemplate.apk";

/// Where the packager lies: where the environment says, else beside the executable.
pub fn resolveClientPackagerExecutable(
    style: PathStyle,
    chosen: Option<String>,
    parent: &Option<String>,
) -> (result: String)
    ensures
        result@ == fileBeside(
            style,
            optionalView(chosen),
            optionalView(*parent),
            clientPackagerFileName@,
        ),
{
    resolveBesideExecutable(style, chosen, parent, clientPackagerFileName)
}

/// Where the template of packages lies: where the environment says, else beside the executable.
pub fn resolveClientTemplatePath(
    style: PathStyle,
    chosen: Option<String>,
    parent: &Option<String>,
) -> (result: String)
    ensures
        result@ == fileBeside(
            style,
            optionalView(chosen),
            optionalView(*parent),
            clientTemplateFileName@,
        ),
{
    resolveBesideExecutable(style, chosen, parent, clientTemplateFileName)
}

/// A run of the packager counts exactly where it succeeded, said nothing of errors and kept its output short.
pub proof fn lawQuietSuccessCounts(output: PackagerOutput)
    ensures
        runProblem(output) is None <==> output.success && output.stderr@.len() == 0
            && output.stdout@.len() <= 64 * 1024,
        output.stdout@.len() <= 64 * 1024 && output.stderr@.len() <= 64 * 1024 && !output.success
            && valid_utf8(output.stderr@) ==> runProblem(output) == Some(
            "独立客户端打包器失败："@ + trimmed(decode_utf8(output.stderr@)),
        ),
{
}

/// A process that is known to have exited leaves nothing behind; of one that is not, it is told, and no other
/// is begun.
pub proof fn lawLivingPackagerIsTold(
    alreadyExited: bool,
    killError: Option<Seq<char>>,
    exitSeen: bool,
    reason: Seq<char>,
)
    ensures
        ({
            let problem = terminationProblem(alreadyExited, killError, exitSeen);
            &&& problem is None <==> alreadyExited || exitSeen
            &&& spawnedFailure(reason, problem).processExited <==> alreadyExited || exitSeen
            &&& problem is None ==> spawnedFailure(reason, problem).reason == reason
            &&& problem matches Some(text) ==> spawnedFailure(reason, problem).reason == reason
                + "；"@ + text
        }),
        exitedError(reason).processExited && exitedError(reason).reason == reason,
{
}

/// Output is taken whole where it could be read and is short enough.
pub proof fn lawOutputIsTakenWhole(bytes: Seq<u8>, readError: Option<Seq<char>>)
    ensures
        outputVerdict(bytes, readError) is Ok <==> readError is None && bytes.len() <= 64 * 1024,
        outputVerdict(bytes, readError) matches Ok(taken) ==> taken == bytes,
{
}

/// Every file that could not be removed is told of, in order, and none that is gone.
pub proof fn lawRemainingFilesAreTold(outcomes: Seq<RemovalOutcome>, outcome: RemovalOutcome)
    ensures
        removalFailures(Seq::empty()).len() == 0,
        outcome is Gone ==> removalFailures(outcomes.push(outcome)) == removalFailures(outcomes),
        outcome matches RemovalOutcome::Failed { path, cause } ==> removalFailures(
            outcomes.push(outcome),
        ) == removalFailures(outcomes).push(path@ + "："@ + cause@),
        !(outcome is Gone) ==> removalFailures(outcomes.push(outcome)).len() == removalFailures(
            outcomes,
        ).len() + 1,
{
    assert(outcomes.push(outcome).drop_last() =~= outcomes);
    assert(removalFailures(outcomes.push(outcome)) =~= removalFailures(outcomes) + removalFailure(
        outcome,
    ));
}

/// The extension of a file is what follows the last dot of its name, where something stands before.
pub proof fn lawExtensionFollowsTheLastDot(stem: Seq<char>, extension: Seq<char>)
    requires
        !extension.contains('.'),
    ensures
        stem.len() > 0 ==> extensionOf(stem + seq!['.'] + extension) == Some(extension),
        extensionOf(extension) is None,
        extensionOf(seq!['.'] + extension) is None,
{
    lemmaLastDot(stem + seq!['.'], extension);
    lemmaLastDot(seq!['.'], extension);
    lemmaLastDot(Seq::empty(), extension);
    assert(Seq::<char>::empty() + extension =~= extension);
    let whole = stem + seq!['.'] + extension;
    assert(whole.skip(stem.len() as int + 1) =~= extension);
}

proof fn lemmaLastDot(head: Seq<char>, tail: Seq<char>)
    requires
        !tail.contains('.'),
        head.len() == 0 || head.last() == '.',
    ensures
        lastDot(head + tail) == head.len() - 1,
    decreases tail.len(),
{
    if tail.len() == 0 {
        assert(head + tail =~= head);
    } else {
        let shorter = tail.drop_last();
        assert(!shorter.contains('.')) by {
            if shorter.contains('.') {
                let k = choose|k: int| 0 <= k < shorter.len() && shorter[k] == '.';
                assert(tail[k] == '.');
            }
        }
        assert(tail.contains(tail.last()));
        lemmaLastDot(head, shorter);
        assert((head + tail).drop_last() =~= head + shorter);
    }
}

/// A failure tells its reason, and behind it what could not be cleared away.
pub proof fn lawFailureTellsItsRemains(reason: Seq<char>, problem: Seq<char>)
    ensures
        withCleanup(reason, None) == reason,
        withCleanup(reason, Some(problem)) == reason + "；清理客户端临时文件失败："@ + problem,
{
}

} // verus!
