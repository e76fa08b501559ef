//! The tools of the traffic pipeline: which there are, how one is reconfigured while traffic flows, and
//! what a failed operation is answered with.

use crate::controlApi::httpControl::{plainError, ApiError, ApiErrorView};
use crate::localization::ErrorCode;
use crate::text::{concatThree, copyText, equalText, optionalView, views};
use vstd::prelude::*;

verus! {

/// The tools that can be configured, in the order in which traffic passes them.
#[derive(Clone, Copy, Debug, PartialEq, Eq, Structural)]
pub enum ToolId {
    RecordingRules,
    DnsSpoofing,
    BlockList,
    NoCaching,
    BlockCookies,
    MapRemote,
    MapLocal,
    Rewrite,
    Breakpoints,
    Throttling,
    Mirror,
    AutoSave,
    PacketFilters,
}

/// The tools in the order in which traffic passes them.
pub open spec fn pipelineTools() -> Seq<ToolId> {
    seq![
        ToolId::RecordingRules,
        ToolId::DnsSpoofing,
        ToolId::BlockList,
        ToolId::NoCaching,
        ToolId::BlockCookies,
        ToolId::MapRemote,
        ToolId::MapLocal,
        ToolId::Rewrite,
        ToolId::Breakpoints,
        ToolId::Throttling,
        ToolId::Mirror,
        ToolId::AutoSave,
        ToolId::PacketFilters,
    ]
}

/// The name of a tool in the control protocol.
pub open spec fn toolName(tool: ToolId) -> Seq<char> {
    match tool {
        ToolId::RecordingRules => "recordingRules"@,
        ToolId::DnsSpoofing => "dnsSpoofing"@,
        ToolId::BlockList => "blockList"@,
        ToolId::NoCaching => "noCaching"@,
        ToolId::BlockCookies => "blockCookies"@,
        ToolId::MapRemote => "mapRemote"@,
        ToolId::MapLocal => "mapLocal"@,
        ToolId::Rewrite => "rewrite"@,
        ToolId::Breakpoints => "breakpoints"@,
        ToolId::Throttling => "throttling"@,
        ToolId::Mirror => "mirror"@,
        ToolId::AutoSave => "autoSave"@,
        ToolId::PacketFilters => "packetFilters"@,
    }
}

impl ToolId {
    /// The name of the tool in the control protocol.
    pub fn name(self) -> (result: &'static str)
        ensures
            result@ == toolName(self),
    {
        match self {
            ToolId::RecordingRules => "recordingRules",
            ToolId::DnsSpoofing => "dnsSpoofing",
            ToolId::BlockList => "blockList",
            ToolId::NoCaching => "noCaching",
            ToolId::BlockCookies => "blockCookies",
            ToolId::MapRemote => "mapRemote",
            ToolId::MapLocal => "mapLocal",
            ToolId::Rewrite => "rewrite",
            ToolId::Breakpoints => "breakpoints",
            ToolId::Throttling => "throttling",
            ToolId::Mirror => "mirror",
            ToolId::AutoSave => "autoSave",
            ToolId::PacketFilters => "packetFilters",
        }
    }

    /// The tool of a name; a name that is no tool's gives nothing.
    pub fn fromName(name: &str) -> (result: Option<ToolId>)
        ensures
            match result {
                Some(tool) => toolName(tool) == name@,
                None => forall|tool: ToolId| toolName(tool) != name@,
            },
    {
        let tools = allTools();
        let mut i: usize = 0;
        while i < tools.len()
            invariant
                i <= tools.len(),
                tools@ == pipelineTools(),
                forall|k: int| 0 <= k < i ==> toolName(#[trigger] pipelineTools()[k]) != name@,
            decreases tools.len() - i,
        {
            if equalText(tools[i].name(), name) {
                return Some(tools[i]);
            }
            i += 1;
        }
        proof {
            assert forall|tool: ToolId| toolName(tool) != name@ by {
                lemmaEveryToolIsListed(tool);
                let k = choose|k: int| 0 <= k < pipelineTools().len() && pipelineTools()[k] == tool;
                assert(toolName(pipelineTools()[k]) != name@);
            }
        }
        None
    }
}

/// The tools in the order in which traffic passes them.
pub fn allTools() -> (result: Vec<ToolId>)
    ensures
        result@ == pipelineTools(),
{
    let tools = vec![
        ToolId::RecordingRules,
        ToolId::DnsSpoofing,
        ToolId::BlockList,
        ToolId::NoCaching,
        ToolId::BlockCookies,
        ToolId::MapRemote,
        ToolId::MapLocal,
        ToolId::Rewrite,
        ToolId::Breakpoints,
        ToolId::Throttling,
        ToolId::Mirror,
        ToolId::AutoSave,
        ToolId::PacketFilters,
    ];
    assert(tools@ == pipelineTools());
    tools
}

proof fn lemmaEveryToolIsListed(tool: ToolId)
    ensures
        pipelineTools().contains(tool),
{
    let tools = pipelineTools();
    assert(tools[0] == ToolId::RecordingRules && tools[1] == ToolId::DnsSpoofing && tools[2]
        == ToolId::BlockList && tools[3] == ToolId::NoCaching && tools[4] == ToolId::BlockCookies
        && tools[5] == ToolId::MapRemote && tools[6] == ToolId::MapLocal && tools[7]
        == ToolId::Rewrite && tools[8] == ToolId::Breakpoints && tools[9] == ToolId::Throttling
        && tools[10] == ToolId::Mirror && tools[11] == ToolId::AutoSave && tools[12]
        == ToolId::PacketFilters);
}

/// No two tools share a name, so a name leads back to its tool, and every tool stands in the pipeline
/// exactly once.
pub proof fn lawToolNamesDiffer(first: ToolId, second: ToolId)
    ensures
        toolName(first) == toolName(second) ==> first == second,
        pipelineTools().contains(first),
        pipelineTools().no_duplicates(),
{
    lemmaEveryToolIsListed(first);
    reveal_strlit("recordingRules");
    reveal_strlit("dnsSpoofing");
    reveal_strlit("blockList");
    reveal_strlit("noCaching");
    reveal_strlit("blockCookies");
    reveal_strlit("mapRemote");
    reveal_strlit("mapLocal");
    reveal_strlit("rewrite");
    reveal_strlit("breakpoints");
    reveal_strlit("throttling");
    reveal_strlit("mirror");
    reveal_strlit("autoSave");
    reveal_strlit("packetFilters");
    let left = toolName(first);
    let right = toolName(second);
    if left == right {
        assert(left.len() == right.len());
        assert(left[0] == right[0] && left[3] == right[3]);
    }
}

// ---------------------------------------------------------------------------
// Configurations
// ---------------------------------------------------------------------------

/// What is remembered of every tool, over configurations of type `C`. Counters, errors and suspended
/// traffic are not part of it.
#[derive(Debug, Default)]
pub struct PersistedToolsConfiguration<C> {
    pub recordingRules: C,
    pub packetFilters: C,
    pub blockList: C,
    pub noCaching: C,
    pub blockCookies: C,
    pub dnsSpoofing: C,
    pub mapLocal: C,
    pub mapRemote: C,
    pub rewrite: C,
    pub breakpoints: C,
    pub throttling: C,
    pub mirror: C,
    pub autoSave: C,
}

impl<C> PersistedToolsConfiguration<C> {
    /// The configuration of a tool.
    pub open spec fn at(self, tool: ToolId) -> C {
        match tool {
            ToolId::RecordingRules => self.recordingRules,
            ToolId::DnsSpoofing => self.dnsSpoofing,
            ToolId::BlockList => self.blockList,
            ToolId::NoCaching => self.noCaching,
            ToolId::BlockCookies => self.blockCookies,
            ToolId::MapRemote => self.mapRemote,
            ToolId::MapLocal => self.mapLocal,
            ToolId::Rewrite => self.rewrite,
            ToolId::Breakpoints => self.breakpoints,
            ToolId::Throttling => self.throttling,
            ToolId::Mirror => self.mirror,
            ToolId::AutoSave => self.autoSave,
            ToolId::PacketFilters => self.packetFilters,
        }
    }

    /// The configuration of a tool.
    pub fn configuration(&self, tool: ToolId) -> (result: &C)
        ensures
            *result == self.at(tool),
    {
        match tool {
            ToolId::RecordingRules => &self.recordingRules,
            ToolId::DnsSpoofing => &self.dnsSpoofing,
            ToolId::BlockList => &self.blockList,
            ToolId::NoCaching => &self.noCaching,
            ToolId::BlockCookies => &self.blockCookies,
            ToolId::MapRemote => &self.mapRemote,
            ToolId::MapLocal => &self.mapLocal,
            ToolId::Rewrite => &self.rewrite,
            ToolId::Breakpoints => &self.breakpoints,
            ToolId::Throttling => &self.throttling,
            ToolId::Mirror => &self.mirror,
            ToolId::AutoSave => &self.autoSave,
            ToolId::PacketFilters => &self.packetFilters,
        }
    }

    /// Replaces the configuration of a tool.
    pub fn replace(&mut self, tool: ToolId, configuration: C)
        ensures
            *final(self) == replacedTool(*old(self), tool, configuration),
    {
        match tool {
            ToolId::RecordingRules => {
                self.recordingRules = configuration;
            },
            ToolId::DnsSpoofing => {
                self.dnsSpoofing = configuration;
            },
            ToolId::BlockList => {
                self.blockList = configuration;
            },
            ToolId::NoCaching => {
                self.noCaching = configuration;
            },
            ToolId::BlockCookies => {
                self.blockCookies = configuration;
            },
            ToolId::MapRemote => {
                self.mapRemote = configuration;
            },
            ToolId::MapLocal => {
                self.mapLocal = configuration;
            },
            ToolId::Rewrite => {
                self.rewrite = configuration;
            },
            ToolId::Breakpoints => {
                self.breakpoints = configuration;
            },
            ToolId::Throttling => {
                self.throttling = configuration;
            },
            ToolId::Mirror => {
                self.mirror = configuration;
            },
            ToolId::AutoSave => {
                self.autoSave = configuration;
            },
            ToolId::PacketFilters => {
                self.packetFilters = configuration;
            },
        }
    }
}

/// The configurations with that of one tool replaced.
pub open spec fn replacedTool<C>(
    configurations: PersistedToolsConfiguration<C>,
    tool: ToolId,
    configuration: C,
) -> PersistedToolsConfiguration<C> {
    match tool {
        ToolId::RecordingRules => PersistedToolsConfiguration {
            recordingRules: configuration,
            ..configurations
        },
        ToolId::DnsSpoofing => PersistedToolsConfiguration {
            dnsSpoofing: configuration,
            ..configurations
        },
        ToolId::BlockList => PersistedToolsConfiguration {
            blockList: configuration,
            ..configurations
        },
        ToolId::NoCaching => PersistedToolsConfiguration {
            noCaching: configuration,
            ..configurations
        },
        ToolId::BlockCookies => PersistedToolsConfiguration {
            blockCookies: configuration,
            ..configurations
        },
        ToolId::MapRemote => PersistedToolsConfiguration {
            mapRemote: configuration,
            ..configurations
        },
        ToolId::MapLocal => PersistedToolsConfiguration {
            mapLocal: configuration,
            ..configurations
        },
        ToolId::Rewrite => PersistedToolsConfiguration { rewrite: configuration, ..configurations },
        ToolId::Breakpoints => PersistedToolsConfiguration {
            breakpoints: configuration,
            ..configurations
        },
        ToolId::Throttling => PersistedToolsConfiguration {
            throttling: configuration,
            ..configurations
        },
        ToolId::Mirror => PersistedToolsConfiguration { mirror: configuration, ..configurations },
        ToolId::AutoSave => PersistedToolsConfiguration {
            autoSave: configuration,
            ..configurations
        },
        ToolId::PacketFilters => PersistedToolsConfiguration {
            packetFilters: configuration,
            ..configurations
        },
    }
}

/// Replacing the configuration of one tool leaves all others as they were.
pub proof fn lawOneToolIsReplaced<C>(
    configurations: PersistedToolsConfiguration<C>,
    tool: ToolId,
    configuration: C,
    other: ToolId,
)
    ensures
        replacedTool(configurations, tool, configuration).at(other) == if other == tool {
            configuration
        } else {
            configurations.at(other)
        },
{
}

/// Why an operation on a tool fails.
#[derive(Clone, Copy, Debug, PartialEq, Eq, Structural)]
pub enum ToolControlError {
    UnknownTool,
    InvalidConfiguration,
    BreakpointNotFound,
    Operation,
    Persistence,
}

/// Why an update is refused, if so: no such tool, a configuration that is none or does not hold
/// together, or one that could not be stored, in this order.
pub open spec fn updateProblem(
    known: bool,
    decoded: bool,
    valid: bool,
    stored: bool,
) -> Option<ToolControlError> {
    if !known {
        Some(ToolControlError::UnknownTool)
    } else if !decoded || !valid {
        Some(ToolControlError::InvalidConfiguration)
    } else if !stored {
        Some(ToolControlError::Persistence)
    } else {
        None
    }
}

/// The tool that an update names, where its configuration may be stored: one that was decoded and holds
/// together.
pub fn prepareUpdate(toolId: &str, decoded: bool, valid: bool) -> (result: Result<
    ToolId,
    ToolControlError,
>)
    ensures
        match result {
            Ok(tool) => toolName(tool) == toolId@ && decoded && valid,
            Err(error) => updateProblem(
                exists|tool: ToolId| toolName(tool) == toolId@,
                decoded,
                valid,
                true,
            ) == Some(error),
        },
{
    match ToolId::fromName(toolId) {
        Some(tool) => if decoded && valid {
            Ok(tool)
        } else {
            assert(toolName(tool) == toolId@);
            Err(ToolControlError::InvalidConfiguration)
        },
        None => Err(ToolControlError::UnknownTool),
    }
}

/// The tools as they run, over configurations of type `C`.
#[derive(Debug)]
pub struct ToolRuntime<C> {
    pub configurations: PersistedToolsConfiguration<C>,
    pub suspendedBreakpointCount: usize,
}

impl<C> ToolRuntime<C> {
    /// Puts a prepared configuration into effect. It is stored before any traffic sees it: where
    /// storing failed nothing changes, and on success what runs is what is stored.
    pub fn update(&mut self, tool: ToolId, configuration: C, stored: bool) -> (result: Result<
        (),
        ToolControlError,
    >)
        ensures
            match result {
                Ok(_) => stored && final(self).configurations == replacedTool(
                    old(self).configurations,
                    tool,
                    configuration,
                ) && final(self).suspendedBreakpointCount == old(self).suspendedBreakpointCount,
                Err(error) => !stored && error == ToolControlError::Persistence && *final(self)
                    == *old(self),
            },
    {
        if !stored {
            return Err(ToolControlError::Persistence);
        }
        self.configurations.replace(tool, configuration);
        Ok(())
    }

    /// Lets every suspended message go on, before the service stops. The queue is published only where
    /// this changed it.
    pub fn releaseBreakpointQueue(&mut self) -> (publish: bool)
        ensures
            publish == (old(self).suspendedBreakpointCount > 0),
            final(self).suspendedBreakpointCount == 0,
            final(self).configurations == old(self).configurations,
    {
        let publish = self.suspendedBreakpointCount > 0;
        self.suspendedBreakpointCount = 0;
        publish
    }
}

/// The names of the tools that clients are shown, in the order in which traffic passes them.
pub fn publicPipelineOrder() -> (result: Vec<String>)
    ensures
        views(result@) == pipelineTools().map_values(|tool: ToolId| toolName(tool)),
{
    let tools = allTools();
    let mut names: Vec<String> = Vec::new();
    let mut i: usize = 0;
    while i < tools.len()
        invariant
            i <= tools.len(),
            tools@ == pipelineTools(),
            names.len() == i,
            forall|k: int| 0 <= k < i ==> (#[trigger] names@[k])@ == toolName(pipelineTools()[k]),
        decreases tools.len() - i,
    {
        names.push(copyText(tools[i].name()));
        i += 1;
    }
    assert(views(names@) == pipelineTools().map_values(|tool: ToolId| toolName(tool)));
    names
}

// ---------------------------------------------------------------------------
// Presets that clients do not send
// ---------------------------------------------------------------------------

/// Whether a text is a JSON object, and if so whether it has a member of a name.
pub uninterp spec fn objectMember(text: Seq<char>, name: Seq<char>) -> Option<bool>;

/// Whether a text is a JSON object with a member of a name; nothing where it is no object.
///
/// Trusted: `serde_json::from_str` and `Map::contains_key`. The result depends on the text and the
/// name alone; what a JSON text is, is not stated.
#[verifier::external_body]
fn findObjectMember(text: &str, name: &str) -> (result: Option<bool>)
    ensures
        result == objectMember(text@, name@),
{
    let object = serde_json::from_str::<serde_json::Map<String, serde_json::Value>>(text).ok();
    object.map(|members| members.contains_key(name))
}

/// Whether the stored presets of a client are kept: where it sends an object that says nothing of them.
pub open spec fn keepsPresets(member: Option<bool>) -> bool {
    member == Some(false)
}

/// The presets of a throttling configuration, over presets of type `P`: those that a client sent, or
/// the stored ones where it sent an object without any. `member` says whether the object has presets.
pub fn choosePresets<P>(member: Option<bool>, sent: P, stored: P) -> (result: P)
    ensures
        result == if keepsPresets(member) {
            stored
        } else {
            sent
        },
{
    match member {
        Some(false) => stored,
        _ => sent,
    }
}

/// The presets of the throttling configuration that a client sent as `text`.
pub fn throttlingPresets<P>(text: &str, sent: P, stored: P) -> (result: P)
    ensures
        result == if keepsPresets(objectMember(text@, "userPresets"@)) {
            stored
        } else {
            sent
        },
{
    choosePresets(findObjectMember(text, "userPresets"), sent, stored)
}

// ---------------------------------------------------------------------------
// Beginning
// ---------------------------------------------------------------------------

/// The order in which the tools are set up.
pub open spec fn setupOrder() -> Seq<ToolId> {
    seq![
        ToolId::RecordingRules,
        ToolId::PacketFilters,
        ToolId::BlockList,
        ToolId::NoCaching,
        ToolId::BlockCookies,
        ToolId::DnsSpoofing,
        ToolId::MapLocal,
        ToolId::MapRemote,
        ToolId::Rewrite,
        ToolId::Breakpoints,
        ToolId::Throttling,
        ToolId::Mirror,
        ToolId::AutoSave,
    ]
}

/// The tools in the order in which they are set up.
pub fn toolsInSetupOrder() -> (result: Vec<ToolId>)
    ensures
        result@ == setupOrder(),
{
    let tools = vec![
        ToolId::RecordingRules,
        ToolId::PacketFilters,
        ToolId::BlockList,
        ToolId::NoCaching,
        ToolId::BlockCookies,
        ToolId::DnsSpoofing,
        ToolId::MapLocal,
        ToolId::MapRemote,
        ToolId::Rewrite,
        ToolId::Breakpoints,
        ToolId::Throttling,
        ToolId::Mirror,
        ToolId::AutoSave,
    ];
    assert(tools@ == setupOrder());
    tools
}

/// The stored configuration of a tool, and what was wrong with it if anything.
#[derive(Debug)]
pub struct ToolSetup {
    pub tool: ToolId,
    pub problem: Option<String>,
}

/// The first problem of a setup, with the name of its tool in front.
pub open spec fn firstSetupProblem(setups: Seq<ToolSetup>) -> Option<Seq<char>>
    decreases setups.len(),
{
    if setups.len() == 0 {
        None
    } else {
        match firstSetupProblem(setups.drop_last()) {
            Some(problem) => Some(problem),
            None => match optionalView(setups.last().problem) {
                Some(problem) => Some(toolName(setups.last().tool) + ":"@ + problem),
                None => None,
            },
        }
    }
}

/// Whether setups come in the order in which the tools are set up.
pub open spec fn inSetupOrder(setups: Seq<ToolSetup>) -> bool {
    &&& setups.len() == setupOrder().len()
    &&& forall|i: int|
        0 <= i < setups.len() ==> (#[trigger] setups[i]).tool == setupOrder()[i]
}

proof fn lemmaFirstProblemStays(setups: Seq<ToolSetup>, count: int)
    requires
        0 <= count <= setups.len(),
        firstSetupProblem(setups.take(count)) is Some,
    ensures
        firstSetupProblem(setups) == firstSetupProblem(setups.take(count)),
    decreases setups.len(),
{
    if count == setups.len() {
        assert(setups.take(count) == setups);
    } else {
        assert(setups.drop_last().take(count) == setups.take(count));
        lemmaFirstProblemStays(setups.drop_last(), count);
    }
}

/// Sets the tools up. A stored configuration that does not hold together is reported with the name of
/// its tool and never replaced by a default; registering the tools comes last.
pub fn setUpTools(setups: &Vec<ToolSetup>, pipelineProblem: Option<String>) -> (result: Result<
    (),
    String,
>)
    requires
        inSetupOrder(setups@),
    ensures
        match result {
            Ok(_) => firstSetupProblem(setups@) is None && pipelineProblem is None,
            Err(detail) => match firstSetupProblem(setups@) {
                Some(problem) => detail@ == problem,
                None => pipelineProblem matches Some(problem) && detail@ == "pipeline"@ + ":"@
                    + problem@,
            },
        },
{
    let mut i: usize = 0;
    assert(setups@.take(0).len() == 0);
    while i < setups.len()
        invariant
            i <= setups.len(),
            firstSetupProblem(setups@.take(i as int)) is None,
        decreases setups.len() - i,
    {
        assert(setups@.take(i + 1).drop_last() == setups@.take(i as int));
        assert(setups@.take(i + 1).last() == setups@[i as int]);
        if let Some(problem) = &setups[i].problem {
            proof {
                lemmaFirstProblemStays(setups@, i + 1);
            }
            return Err(concatThree(setups[i].tool.name(), ":", problem.as_str()));
        }
        i += 1;
    }
    assert(setups@.take(i as int) == setups@);
    match pipelineProblem {
        Some(problem) => Err(concatThree("pipeline", ":", problem.as_str())),
        None => Ok(()),
    }
}

// ---------------------------------------------------------------------------
// Answers
// ---------------------------------------------------------------------------

/// Why resuming or aborting a suspended message fails.
#[derive(Clone, Copy, Debug, PartialEq, Eq, Structural)]
pub enum BreakpointError {
    NotFound,
    /// The connection that waited has ended.
    ResolutionClosed,
    Other,
}

/// A connection that has ended is answered as a message that is not there any more.
pub fn mapBreakpointError(error: BreakpointError) -> (result: ToolControlError)
    ensures
        result == match error {
            BreakpointError::NotFound | BreakpointError::ResolutionClosed =>
                ToolControlError::BreakpointNotFound,
            BreakpointError::Other => ToolControlError::Operation,
        },
{
    match error {
        BreakpointError::NotFound => ToolControlError::BreakpointNotFound,
        BreakpointError::ResolutionClosed => ToolControlError::BreakpointNotFound,
        BreakpointError::Other => ToolControlError::Operation,
    }
}

/// The answer to a failed update.
pub open spec fn toolUpdateError(error: ToolControlError) -> ApiErrorView {
    match error {
        ToolControlError::UnknownTool => plainError(404, ErrorCode::ToolNotFound),
        ToolControlError::InvalidConfiguration => plainError(
            400,
            ErrorCode::InvalidToolConfiguration,
        ),
        ToolControlError::BreakpointNotFound => plainError(404, ErrorCode::BreakpointNotFound),
        ToolControlError::Operation => plainError(500, ErrorCode::ToolOperationFailed),
        ToolControlError::Persistence => plainError(
            500,
            ErrorCode::ConfigurationPersistenceFailed,
        ),
    }
}

/// Answers a failed update.
pub fn mapToolUpdateError(error: ToolControlError) -> (result: ApiError)
    ensures
        result@ == toolUpdateError(error),
{
    match error {
        ToolControlError::UnknownTool => ApiError::notFound(ErrorCode::ToolNotFound),
        ToolControlError::InvalidConfiguration => ApiError::badRequest(
            ErrorCode::InvalidToolConfiguration,
        ),
        ToolControlError::BreakpointNotFound => ApiError::notFound(ErrorCode::BreakpointNotFound),
        ToolControlError::Operation => ApiError::internal(ErrorCode::ToolOperationFailed),
        ToolControlError::Persistence => ApiError::internal(
            ErrorCode::ConfigurationPersistenceFailed,
        ),
    }
}

/// Answers a failed read.
pub fn mapToolReadError(error: ToolControlError) -> (result: ApiError)
    ensures
        result@ == if error == ToolControlError::UnknownTool {
            plainError(404, ErrorCode::ToolNotFound)
        } else {
            plainError(500, ErrorCode::ToolOperationFailed)
        },
{
    match error {
        ToolControlError::UnknownTool => ApiError::notFound(ErrorCode::ToolNotFound),
        _ => ApiError::internal(ErrorCode::ToolOperationFailed),
    }
}

/// Answers a message that could not be resumed or aborted.
pub fn mapBreakpointOperationError(error: ToolControlError) -> (result: ApiError)
    ensures
        result@ == if error == ToolControlError::BreakpointNotFound {
            plainError(404, ErrorCode::BreakpointNotFound)
        } else {
            plainError(500, ErrorCode::BreakpointOperationFailed)
        },
{
    match error {
        ToolControlError::BreakpointNotFound => ApiError::notFound(ErrorCode::BreakpointNotFound),
        _ => ApiError::internal(ErrorCode::BreakpointOperationFailed),
    }
}

/// The configuration of a tool as text; one that cannot be written is a failed operation.
pub fn toolConfiguration(toolId: &str, written: Option<String>) -> (result: Result<String, ApiError>)
    ensures
        match result {
            Ok(text) => (exists|tool: ToolId| toolName(tool) == toolId@) && optionalView(written)
                == Some(text@),
            Err(error) => if exists|tool: ToolId| toolName(tool) == toolId@ {
                written is None && error@ == plainError(500, ErrorCode::ToolOperationFailed)
            } else {
                error@ == plainError(404, ErrorCode::ToolNotFound)
            },
        },
{
    match ToolId::fromName(toolId) {
        Some(tool) => {
            assert(toolName(tool) == toolId@);
            match written {
                Some(text) => Ok(text),
                None => Err(mapToolReadError(ToolControlError::Operation)),
            }
        },
        None => Err(mapToolReadError(ToolControlError::UnknownTool)),
    }
}

/// Why an archive of the recording cannot be built.
#[derive(Clone, Copy, Debug, PartialEq, Eq, Structural)]
pub enum HarExportError {
    TransactionNotFound,
    Other,
}

/// Answers an archive that could not be built.
pub fn mapHarExportError(error: HarExportError) -> (result: ApiError)
    ensures
        result@ == match error {
            HarExportError::TransactionNotFound => plainError(404, ErrorCode::TransactionNotFound),
            HarExportError::Other => plainError(500, ErrorCode::ExportOperationFailed),
        },
{
    match error {
        HarExportError::TransactionNotFound => ApiError::notFound(ErrorCode::TransactionNotFound),
        HarExportError::Other => ApiError::internal(ErrorCode::ExportOperationFailed),
    }
}

pub const harContentType: &'static str = "application/har+json";

pub const harDisposition: &'static str = "attachment; filename=\"recording.har\"";

/// A tool is called by its own name, and traffic passes the tools in their order: what is recorded is decided
/// first, packets are filtered last.
pub proof fn lawTrafficPassesInOrder(i: int, j: int)
    requires
        0 <= i < j < 13,
    ensures
        pipelineTools().len() == 13,
        pipelineTools()[i] != pipelineTools()[j],
        pipelineTools()[0] == ToolId::RecordingRules,
        pipelineTools()[1] == ToolId::DnsSpoofing,
        pipelineTools()[2] == ToolId::BlockList,
        pipelineTools()[3] == ToolId::NoCaching,
        pipelineTools()[4] == ToolId::BlockCookies,
        pipelineTools()[5] == ToolId::MapRemote,
        pipelineTools()[6] == ToolId::MapLocal,
        pipelineTools()[7] == ToolId::Rewrite,
        pipelineTools()[8] == ToolId::Breakpoints,
        pipelineTools()[9] == ToolId::Throttling,
        pipelineTools()[10] == ToolId::Mirror,
        pipelineTools()[11] == ToolId::AutoSave,
        pipelineTools()[12] == ToolId::PacketFilters,
{
}

/// Every tool is set up once.
pub proof fn lawEveryToolIsSetUpOnce(tool: ToolId)
    ensures
        setupOrder().contains(tool),
        setupOrder().no_duplicates(),
        setupOrder().len() == pipelineTools().len(),
{
    let order = setupOrder();
    assert(order[0] == ToolId::RecordingRules && order[1] == ToolId::PacketFilters && order[2]
        == ToolId::BlockList && order[3] == ToolId::NoCaching && order[4] == ToolId::BlockCookies
        && order[5] == ToolId::DnsSpoofing && order[6] == ToolId::MapLocal && order[7]
        == ToolId::MapRemote && order[8] == ToolId::Rewrite && order[9] == ToolId::Breakpoints
        && order[10] == ToolId::Throttling && order[11] == ToolId::Mirror && order[12]
        == ToolId::AutoSave);
}

/// An update is carried out exactly where its tool is known, it holds together and could be stored; what stands
/// in its way is told in this order, each for its own reason.
pub proof fn lawToolUpdateTellsItsProblem(known: bool, decoded: bool, valid: bool, stored: bool)
    ensures
        updateProblem(known, decoded, valid, stored) is None <==> known && decoded && valid
            && stored,
        !known ==> updateProblem(known, decoded, valid, stored) == Some(
            ToolControlError::UnknownTool,
        ),
        known && !(decoded && valid) ==> updateProblem(known, decoded, valid, stored) == Some(
            ToolControlError::InvalidConfiguration,
        ),
        known && decoded && valid && !stored ==> updateProblem(known, decoded, valid, stored)
            == Some(ToolControlError::Persistence),
        toolUpdateError(ToolControlError::UnknownTool) == plainError(404, ErrorCode::ToolNotFound),
        toolUpdateError(ToolControlError::InvalidConfiguration) == plainError(
            400,
            ErrorCode::InvalidToolConfiguration,
        ),
        toolUpdateError(ToolControlError::BreakpointNotFound) == plainError(
            404,
            ErrorCode::BreakpointNotFound,
        ),
        toolUpdateError(ToolControlError::Operation) == plainError(
            500,
            ErrorCode::ToolOperationFailed,
        ),
        toolUpdateError(ToolControlError::Persistence) == plainError(
            500,
            ErrorCode::ConfigurationPersistenceFailed,
        ),
{
}

/// The presets of a client stay where it sent a configuration without any, and only there.
pub proof fn lawPresetsStayUnlessSent(member: Option<bool>)
    ensures
        keepsPresets(Some(false)),
        !keepsPresets(Some(true)),
        !keepsPresets(None),
{
}

/// The first tool whose stored configuration does not hold together is told, with its name in front; where all
/// do, there is nothing to tell.
pub proof fn lawFirstSetupProblemIsTold(setups: Seq<ToolSetup>, i: int)
    requires
        0 <= i < setups.len(),
        forall|k: int| 0 <= k < i ==> (#[trigger] setups[k]).problem is None,
    ensures
        setups[i].problem matches Some(problem) ==> firstSetupProblem(setups) == Some(
            toolName(setups[i].tool) + ":"@ + problem@,
        ),
        i == setups.len() - 1 && setups[i].problem is None ==> firstSetupProblem(setups) is None,
    decreases setups.len(),
{
    let shorter = setups.drop_last();
    assert(setups.last() == setups[setups.len() - 1]);
    if i < shorter.len() {
        assert(shorter[i] == setups[i]);
        assert forall|k: int| 0 <= k < i implies (#[trigger] shorter[k]).problem is None by {
            assert(shorter[k] == setups[k]);
        }
        lawFirstSetupProblemIsTold(shorter, i);
    } else {
        if shorter.len() > 0 {
            assert forall|k: int|
                0 <= k < shorter.len() - 1 implies (#[trigger] shorter[k]).problem is None by {
                assert(shorter[k] == setups[k]);
            }
            assert(shorter[shorter.len() - 1] == setups[shorter.len() - 1]);
            lawFirstSetupProblemIsTold(shorter, shorter.len() - 1);
        }
    }
}

} // verus!
