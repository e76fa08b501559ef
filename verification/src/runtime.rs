//! Decisions of the process entry: the control address, the run mode and the shutdown command.

use crate::network::{isLoopback, Endpoint, IpAddress};
use crate::text::{
    asciiLower, asciiLowered, concatText, copyText, decimal, decimalText, equalIgnoringAsciiCase, equalText,
    optionalView, trimText, trimmed, views,
};
use vstd::prelude::*;

verus! {

/// The port of the control interface where none is configured.
pub const defaultControlPort: u16 = 17_890;

/// How long slow control connections may keep the process alive after shutdown began.
pub const controlDrainTimeoutMilliseconds: u64 = 1_000;

/// A process runs standalone on an explicit `1` or `true`, whatever the letter case.
pub open spec fn isStandalone(configured: Option<Seq<char>>) -> bool {
    match configured {
        Some(value) => value == "1"@ || asciiLowered(value) == asciiLowered("true"@),
        None => false,
    }
}

/// Whether the process runs on its own, not under a desktop parent that owns its standard input.
pub fn standaloneModeEnabled(configuredValue: Option<&str>) -> (result: bool)
    ensures
        result == isStandalone(
            match configuredValue {
                Some(value) => Some(value@),
                None => None,
            },
        ),
{
    match configuredValue {
        Some(value) => equalText(value, "1") || equalIgnoringAsciiCase(value, "true"),
        None => false,
    }
}

/// The address to listen on, as text: the configured one, or the loopback address with the default port.
pub fn controlAddressText(configured: Option<String>) -> (result: String)
    ensures
        result@ == match configured {
            Some(text) => text@,
            None => "127.0.0.1:"@ + decimal(defaultControlPort as nat),
        },
{
    match configured {
        Some(text) => text,
        None => concatText("127.0.0.1:", decimalText(defaultControlPort as u64).as_str()),
    }
}

/// Why an address is refused: it cannot be read, or it can be reached from another machine.
pub open spec fn controlAddressProblem(parsed: Result<Endpoint, String>) -> Option<Seq<char>> {
    match parsed {
        Err(cause) => Some("控制地址无效："@ + cause@),
        Ok(endpoint) => if isLoopback(endpoint.address) {
            None
        } else {
            Some("控制接口只允许绑定本机回环地址"@)
        },
    }
}

/// Accepts a control address only on the loopback interface, so that the control plane is never
/// reachable from another machine.
pub fn resolveControlAddress(parsed: Result<Endpoint, String>) -> (result: Result<Endpoint, String>)
    ensures
        match result {
            Ok(endpoint) => controlAddressProblem(parsed) is None && parsed == Ok::<
                Endpoint,
                String,
            >(endpoint),
            Err(detail) => controlAddressProblem(parsed) == Some(detail@),
        },
{
    match parsed {
        Err(cause) => Err(concatText("控制地址无效：", cause.as_str())),
        Ok(endpoint) => if endpoint.address.loopback() {
            Ok(endpoint)
        } else {
            Err(copyText("控制接口只允许绑定本机回环地址"))
        },
    }
}

/// A control plane that is open never leaves the machine.
pub proof fn lawControlPlaneStaysLocal(parsed: Result<Endpoint, String>)
    ensures
        controlAddressProblem(parsed) is None ==> parsed is Ok && isLoopback(
            parsed->Ok_0.address,
        ),
{
}

/// What came from the parent's command pipe.
#[derive(Debug)]
pub enum CommandInput {
    Line(String),
    EndOfInput,
    ReadFailed,
}

/// Whether an input ends the wait: the line `shutdown`, the end of the pipe or a read error. Every
/// other line is ignored.
pub fn endsShutdownWait(input: &CommandInput) -> (result: bool)
    ensures
        result == match *input {
            CommandInput::Line(line) => trimmed(line@) == "shutdown"@,
            CommandInput::EndOfInput => true,
            CommandInput::ReadFailed => true,
        },
{
    match input {
        CommandInput::Line(line) => {
            let command = trimText(line.as_str());
            equalText(command.as_str(), "shutdown")
        },
        CommandInput::EndOfInput => true,
        CommandInput::ReadFailed => true,
    }
}

/// How serving the control plane ended.
#[derive(Debug)]
pub enum ServeOutcome {
    Served,
    Failed(String),
    /// Some connections were still open when the time for them ran out.
    CutOff,
}

/// What a run leaves: what it says, and whether it failed.
#[derive(Debug)]
pub struct RunReport {
    pub lines: Vec<String>,
    pub failed: bool,
}

/// What a run says at its end. A failed control plane outweighs a service that could not be stopped.
pub open spec fn runLines(serving: ServeOutcome, stopFailure: Option<Seq<char>>) -> Seq<Seq<char>> {
    let stopLines = match stopFailure {
        Some(message) => seq!["SOCKS5 服务关闭失败："@ + message],
        None => Seq::empty(),
    };
    match serving {
        ServeOutcome::Served => stopLines,
        ServeOutcome::Failed(cause) => seq!["控制接口运行失败："@ + cause@],
        ServeOutcome::CutOff => seq!["控制接口排空超过 1 秒，已关闭残留控制连接"@] + stopLines,
    }
}

/// Settles a run once the service was stopped.
pub fn runControlService(serving: ServeOutcome, stopFailure: Option<String>) -> (result: RunReport)
    ensures
        views(result.lines@) == runLines(serving, optionalView(stopFailure)),
        result.failed == (serving is Failed || stopFailure is Some),
{
    let mut lines: Vec<String> = Vec::new();
    assert(views(lines@) == Seq::<Seq<char>>::empty());
    match serving {
        ServeOutcome::Failed(cause) => {
            lines.push(concatText("控制接口运行失败：", cause.as_str()));
            assert(views(lines@) == runLines(serving, optionalView(stopFailure)));
            return RunReport { lines, failed: true };
        },
        ServeOutcome::Served => {},
        ServeOutcome::CutOff => {
            lines.push(copyText("控制接口排空超过 1 秒，已关闭残留控制连接"));
        },
    }
    match &stopFailure {
        Some(message) => {
            lines.push(concatText("SOCKS5 服务关闭失败：", message.as_str()));
        },
        None => {},
    }
    assert(views(lines@) == runLines(serving, optionalView(stopFailure)));
    RunReport { lines, failed: stopFailure.is_some() }
}

/// The control interface is bound to an address of the machine and to no other, and an address that cannot be read
/// is told with its cause.
pub proof fn lawControlAddressIsJudged(endpoint: Endpoint, cause: String)
    ensures
        controlAddressProblem(Ok(endpoint)) is None <==> (match endpoint.address {
            IpAddress::V4(bits) => 0x7f00_0000 <= bits < 0x8000_0000,
            IpAddress::V6(bits) => bits == 1,
        }),
        controlAddressProblem(Ok(endpoint)) is Some ==> controlAddressProblem(Ok(endpoint)) == Some(
            "控制接口只允许绑定本机回环地址"@,
        ),
        controlAddressProblem(Err(cause)) == Some("控制地址无效："@ + cause@),
{
}

/// The service stands alone where it is told so with a one, or with the word for truth in letters of either case,
/// and nowhere else.
pub proof fn lawStandaloneIsAsked(text: Seq<char>)
    ensures
        !isStandalone(None),
        isStandalone(Some(text)) ==> text == seq!['1'] || (text.len() == 4 && (text[0] == 't' || text[0]
            == 'T') && (text[1] == 'r' || text[1] == 'R') && (text[2] == 'u' || text[2] == 'U') && (text[3]
            == 'e' || text[3] == 'E')),
        text == seq!['1'] ==> isStandalone(Some(text)),
        text.len() == 4 && (text[0] == 't' || text[0] == 'T') && (text[1] == 'r' || text[1] == 'R') && (
        text[2] == 'u' || text[2] == 'U') && (text[3] == 'e' || text[3] == 'E') ==> isStandalone(
            Some(text),
        ),
{
    reveal_strlit("1");
    reveal_strlit("true");
    assert("1"@ =~= seq!['1']);
    let lowered = asciiLowered("true"@);
    assert(lowered =~= seq!['t', 'r', 'u', 'e']);
    if asciiLowered(text) == lowered {
        assert(asciiLowered(text).len() == text.len());
        assert(asciiLower(text[0]) == asciiLowered(text)[0]);
        assert(asciiLower(text[1]) == asciiLowered(text)[1]);
        assert(asciiLower(text[2]) == asciiLowered(text)[2]);
        assert(asciiLower(text[3]) == asciiLowered(text)[3]);
    }
    if text.len() == 4 && (text[0] == 't' || text[0] == 'T') && (text[1] == 'r' || text[1] == 'R') && (
    text[2] == 'u' || text[2] == 'U') && (text[3] == 'e' || text[3] == 'E') {
        assert(asciiLowered(text) =~= lowered);
    }
}

/// A run that ended well says nothing. A control interface that failed tells its cause alone; connections that had
/// to be cut off are told before a proxy that did not stop.
pub proof fn lawRunTellsWhatWentWrong(cause: String, stop: Seq<char>)
    ensures
        runLines(ServeOutcome::Served, None) == Seq::<Seq<char>>::empty(),
        runLines(ServeOutcome::Served, Some(stop)) == seq!["SOCKS5 服务关闭失败："@ + stop],
        runLines(ServeOutcome::Failed(cause), None) == seq!["控制接口运行失败："@ + cause@],
        runLines(ServeOutcome::Failed(cause), Some(stop)) == seq!["控制接口运行失败："@ + cause@],
        runLines(ServeOutcome::CutOff, None) == seq![
            "控制接口排空超过 1 秒，已关闭残留控制连接"@,
        ],
        runLines(ServeOutcome::CutOff, Some(stop)) == seq![
            "控制接口排空超过 1 秒，已关闭残留控制连接"@,
            "SOCKS5 服务关闭失败："@ + stop,
        ],
{
    assert(runLines(ServeOutcome::CutOff, None) =~= seq![
        "控制接口排空超过 1 秒，已关闭残留控制连接"@,
    ]);
    assert(runLines(ServeOutcome::CutOff, Some(stop)) =~= seq![
        "控制接口排空超过 1 秒，已关闭残留控制连接"@,
        "SOCKS5 服务关闭失败："@ + stop,
    ]);
}

} // verus!
