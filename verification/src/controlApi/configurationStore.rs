//! The one file that holds every configuration: reading it at the start and replacing it as a whole.

use crate::controlApi::dataDirectory::{childPath, configurationFileName, joinPath, PathStyle};
use crate::controlApi::processControl::{
    emptySelectionMessage, normalizedPaths, replaceSelection, PersistedProcessSelection,
    ProcessSelectionUpdate,
};
use crate::documents::{
    dropMember, findMember, hasMember, listMembers, memberOf, objectMembers, readDocument,
    replaceMember, withMember, withoutMember, writeObject, writtenDocument, writtenObject,
    MemberView,
};
use crate::text::{concatText, views};
use vstd::prelude::*;
use vstd::utf8::encode_utf8;

verus! {

/// The part of the file that holds the tools.
pub const toolsKey: &'static str = "tools";

/// The tool whose stored configuration is no longer read.
pub const retiredRecordingRulesKey: &'static str = "recordingRules";

/// The path of the file below the data directory.
pub fn configurationPath(style: PathStyle, dataDirectory: &str) -> (result: String)
    ensures
        result@ == childPath(style, dataDirectory@, configurationFileName@),
{
    joinPath(style, dataDirectory, configurationFileName)
}

// ---------------------------------------------------------------------------
// Reading
// ---------------------------------------------------------------------------

/// A stored document without the configuration of the retired tool.
#[derive(Debug)]
pub struct TrimmedDocument {
    pub bytes: Vec<u8>,
    /// Whether the configuration was there.
    pub removed: bool,
}

/// The value of a document that was read.
pub open spec fn trimmedView(document: Result<TrimmedDocument, String>) -> Option<
    (Seq<u8>, bool),
> {
    match document {
        Ok(document) => Some((document.bytes@, document.removed)),
        Err(_) => None,
    }
}

/// The members of the tools, where a document is an object whose tools are one.
pub open spec fn toolMembers(bytes: Seq<u8>) -> Option<Seq<MemberView>> {
    match objectMembers(bytes) {
        Some(members) => match memberOf(members, toolsKey@) {
            Some(tools) => objectMembers(encode_utf8(tools)),
            None => None,
        },
        None => None,
    }
}

/// Whether a document holds the configuration of the retired tool.
pub open spec fn holdsRetiredRules(bytes: Seq<u8>) -> bool {
    match toolMembers(bytes) {
        Some(tools) => hasMember(tools, retiredRecordingRulesKey@),
        None => false,
    }
}

/// The members of a document, the retired tool's configuration dropped from its tools.
pub open spec fn trimmedMembers(bytes: Seq<u8>) -> Seq<MemberView> {
    withMember(
        objectMembers(bytes)->Some_0,
        toolsKey@,
        writtenObject(withoutMember(toolMembers(bytes)->Some_0, retiredRecordingRulesKey@)),
    )
}

/// A stored document without the configuration of the retired tool, and whether it was there. One
/// without it stays as it is, byte for byte. Nothing where the bytes are no document.
pub open spec fn trimmedDocument(bytes: Seq<u8>) -> Option<(Seq<u8>, bool)> {
    match writtenDocument(bytes) {
        None => None,
        Some(_) => if holdsRetiredRules(bytes) {
            Some((encode_utf8(writtenObject(trimmedMembers(bytes))), true))
        } else {
            Some((bytes, false))
        },
    }
}

fn copyBytes(bytes: &[u8]) -> (result: Vec<u8>)
    ensures
        result@ == bytes@,
{
    let mut result: Vec<u8> = Vec::new();
    let mut i: usize = 0;
    while i < bytes.len()
        invariant
            i <= bytes.len(),
            result@ == bytes@.take(i as int),
        decreases bytes.len() - i,
    {
        result.push(bytes[i]);
        i += 1;
        assert(result@ == bytes@.take(i as int));
    }
    assert(bytes@.take(i as int) == bytes@);
    result
}

/// The document without the configuration of the retired tool, where it holds one.
fn dropRetiredRules(bytes: &[u8]) -> (result: Option<Vec<u8>>)
    ensures
        match result {
            Some(trimmed) => holdsRetiredRules(bytes@) && trimmed@ == encode_utf8(
                writtenObject(trimmedMembers(bytes@)),
            ),
            None => !holdsRetiredRules(bytes@),
        },
{
    let members = match listMembers(bytes) {
        Some(members) => members,
        None => return None,
    };
    let tools = match findMember(&members, toolsKey) {
        Some(tools) => tools,
        None => return None,
    };
    let rules = match listMembers(tools.as_str().as_bytes()) {
        Some(rules) => rules,
        None => return None,
    };
    let (kept, removed) = dropMember(rules, retiredRecordingRulesKey);
    if !removed {
        return None;
    }
    let trimmed = replaceMember(members, toolsKey, writeObject(&kept).as_str());
    Some(copyBytes(writeObject(&trimmed).as_str().as_bytes()))
}

/// Reads the stored document without the configuration of the retired tool. Bytes that are no JSON
/// document are refused; only the exactly matching member goes.
pub fn decodeApplicationConfiguration(bytes: &Vec<u8>) -> (result: Result<TrimmedDocument, String>)
    ensures
        trimmedView(result) == trimmedDocument(bytes@),
{
    match readDocument(bytes.as_slice()) {
        Ok(_) => {},
        Err(cause) => return Err(cause),
    }
    match dropRetiredRules(bytes.as_slice()) {
        Some(trimmed) => Ok(TrimmedDocument { bytes: trimmed, removed: true }),
        None => Ok(TrimmedDocument { bytes: copyBytes(bytes.as_slice()), removed: false }),
    }
}

/// Only the configuration of the retired tool goes: every other member of the document and every other
/// tool keeps its name, its document and its place.
pub proof fn lawOnlyRetiredRulesGo(bytes: Seq<u8>, i: int, tool: MemberView)
    requires
        holdsRetiredRules(bytes),
    ensures
        trimmedMembers(bytes).len() == objectMembers(bytes)->Some_0.len(),
        0 <= i < trimmedMembers(bytes).len() ==> {
            let (before, after) = (objectMembers(bytes)->Some_0[i], trimmedMembers(bytes)[i]);
            &&& after.0 == before.0
            &&& before.0 != toolsKey@ ==> after == before
            &&& before.0 == toolsKey@ ==> after.1 == writtenObject(
                withoutMember(toolMembers(bytes)->Some_0, retiredRecordingRulesKey@),
            )
        },
        withoutMember(toolMembers(bytes)->Some_0, retiredRecordingRulesKey@).contains(tool) <==> (
        toolMembers(bytes)->Some_0.contains(tool) && tool.0 != retiredRecordingRulesKey@),
{
    let tools = toolMembers(bytes)->Some_0;
    lemmaFilterContains(tools, |member: MemberView| member.0 != retiredRecordingRulesKey@, tool);
}

/// Filtering keeps exactly the items that pass.
proof fn lemmaFilterContains(
    members: Seq<MemberView>,
    passes: spec_fn(MemberView) -> bool,
    member: MemberView,
)
    ensures
        members.filter(passes).contains(member) <==> members.contains(member) && passes(member),
    decreases members.len(),
{
    reveal(Seq::filter);
    if members.len() > 0 {
        let before = members.drop_last();
        let last = members.last();
        lemmaFilterContains(before, passes, member);
        assert(members == before.push(last));
        assert(members.contains(member) <==> before.contains(member) || member == last) by {
            if before.contains(member) {
                let k = choose|k: int| 0 <= k < before.len() && before[k] == member;
                assert(members[k] == member);
            }
            if member == last {
                assert(members[members.len() - 1] == member);
            }
            if members.contains(member) && member != last {
                let k = choose|k: int| 0 <= k < members.len() && members[k] == member;
                assert(before[k] == member);
            }
        }
        let kept = before.filter(passes);
        if passes(last) {
            assert(kept.push(last).contains(member) <==> kept.contains(member) || member == last)
                by {
                if kept.contains(member) {
                    let k = choose|k: int| 0 <= k < kept.len() && kept[k] == member;
                    assert(kept.push(last)[k] == member);
                }
                if member == last {
                    assert(kept.push(last)[kept.len() as int] == member);
                }
                if kept.push(last).contains(member) && member != last {
                    let k = choose|k: int|
                        0 <= k < kept.push(last).len() && kept.push(last)[k] == member;
                    assert(kept[k] == member);
                }
            }
        }
    }
}

/// What reading the file came to.
#[derive(Debug)]
pub enum FileRead {
    Bytes(Vec<u8>),
    NotFound,
    Failed(String),
}

/// What is done with what was read.
#[derive(Debug)]
pub enum LoadPlan {
    /// There is no file: begin with what is built in.
    BuiltIn,
    /// Decode these bytes; where something was removed the file is written again.
    Decode { bytes: Vec<u8>, writeBack: bool },
}

/// Plans the start from what was read and, where there are bytes, from the document in them. A file
/// that cannot be read or holds no document prevents the start.
pub fn planLoad(read: FileRead, document: Result<TrimmedDocument, String>) -> (result: Result<
    LoadPlan,
    String,
>)
    ensures
        match read {
            FileRead::NotFound => result == Ok::<LoadPlan, String>(LoadPlan::BuiltIn),
            FileRead::Failed(cause) => result matches Err(detail) && detail@ == cause@,
            FileRead::Bytes(_) => match document {
                Ok(document) => result == Ok::<LoadPlan, String>(
                    LoadPlan::Decode { bytes: document.bytes, writeBack: document.removed },
                ),
                Err(cause) => result matches Err(detail) && detail@ == cause@,
            },
        },
{
    match read {
        FileRead::NotFound => Ok(LoadPlan::BuiltIn),
        FileRead::Failed(cause) => Err(cause),
        FileRead::Bytes(_) => match document {
            Ok(document) => Ok(
                LoadPlan::Decode { bytes: document.bytes, writeBack: document.removed },
            ),
            Err(cause) => Err(cause),
        },
    }
}

/// Plans the start from what was read.
pub fn load(read: FileRead) -> (result: Result<LoadPlan, String>)
    ensures
        match read {
            FileRead::NotFound => result == Ok::<LoadPlan, String>(LoadPlan::BuiltIn),
            FileRead::Failed(cause) => result matches Err(detail) && detail@ == cause@,
            FileRead::Bytes(bytes) => match trimmedDocument(bytes@) {
                Some((kept, removed)) => result matches Ok(plan) && (plan matches LoadPlan::Decode {
                    bytes: decoded,
                    writeBack,
                } && decoded@ == kept && writeBack == removed),
                None => result is Err,
            },
        },
{
    let document = match &read {
        FileRead::Bytes(bytes) => decodeApplicationConfiguration(bytes),
        _ => Err(String::new()),
    };
    planLoad(read, document)
}

// ---------------------------------------------------------------------------
// Writing
// ---------------------------------------------------------------------------

/// The name of the file that a configuration is written to before it takes the place of the old one.
pub fn pendingConfigurationName() -> (result: String)
    ensures
        result@ == configurationFileName@ + ".next"@,
{
    concatText(configurationFileName, ".next")
}

/// The steps of writing the file.
#[derive(Clone, Copy, Debug, PartialEq, Eq, Structural)]
pub enum WriteStep {
    CreateDirectory,
    Encode,
    CreatePending,
    WritePending,
    /// Bring the pending file to the disk.
    SyncPending,
    /// Put the pending file in the place of the old one, in one step.
    Replace,
    Done,
    /// The old file stays.
    Failed,
}

/// What a step of writing leads to.
pub open spec fn nextWriteStep(step: WriteStep, succeeded: bool) -> WriteStep {
    match step {
        WriteStep::Done => WriteStep::Done,
        WriteStep::Failed => WriteStep::Failed,
        _ => if !succeeded {
            WriteStep::Failed
        } else {
            match step {
                WriteStep::CreateDirectory => WriteStep::Encode,
                WriteStep::Encode => WriteStep::CreatePending,
                WriteStep::CreatePending => WriteStep::WritePending,
                WriteStep::WritePending => WriteStep::SyncPending,
                WriteStep::SyncPending => WriteStep::Replace,
                _ => WriteStep::Done,
            }
        },
    }
}

impl WriteStep {
    /// What the step leads to.
    pub fn write(self, succeeded: bool) -> (result: WriteStep)
        ensures
            result == nextWriteStep(self, succeeded),
    {
        match self {
            WriteStep::Done => WriteStep::Done,
            WriteStep::Failed => WriteStep::Failed,
            _ => if !succeeded {
                WriteStep::Failed
            } else {
                match self {
                    WriteStep::CreateDirectory => WriteStep::Encode,
                    WriteStep::Encode => WriteStep::CreatePending,
                    WriteStep::CreatePending => WriteStep::WritePending,
                    WriteStep::WritePending => WriteStep::SyncPending,
                    WriteStep::SyncPending => WriteStep::Replace,
                    _ => WriteStep::Done,
                }
            },
        }
    }
}

/// The old file is replaced only by one that is complete on the disk.
pub proof fn lawOldFileStaysUntilComplete(step: WriteStep, succeeded: bool)
    ensures
        nextWriteStep(step, succeeded) is Done && !(step is Done) ==> step is Replace && succeeded,
        nextWriteStep(step, succeeded) is Replace && !(step is Replace) ==> step is SyncPending
            && succeeded,
        !succeeded && !(step is Done) ==> nextWriteStep(step, succeeded) is Failed,
{
}

// ---------------------------------------------------------------------------
// The domains of the configuration
// ---------------------------------------------------------------------------

/// Every configuration of the process. The service and the parts of the data plane are kept as they are
/// written.
#[derive(Debug)]
pub struct ApplicationConfiguration<S, D> {
    pub service: S,
    pub processSelection: PersistedProcessSelection,
    pub recording: D,
    pub auxiliaryListeners: D,
    pub ssl: D,
    pub tools: D,
    pub protocols: D,
    pub mcp: D,
}

/// A new configuration for one domain.
#[derive(Debug)]
pub enum DomainChange<S, D> {
    Service(S),
    ProcessSelection(PersistedProcessSelection),
    Recording(D),
    AuxiliaryListeners(D),
    Ssl(D),
    Tools(D),
    Protocols(D),
    Mcp(D),
}

/// Every configuration, with one domain replaced.
pub open spec fn withDomain<S, D>(
    state: ApplicationConfiguration<S, D>,
    change: DomainChange<S, D>,
) -> ApplicationConfiguration<S, D> {
    match change {
        DomainChange::Service(service) => ApplicationConfiguration { service, ..state },
        DomainChange::ProcessSelection(processSelection) => ApplicationConfiguration { processSelection, ..state },
        DomainChange::Recording(recording) => ApplicationConfiguration { recording, ..state },
        DomainChange::AuxiliaryListeners(auxiliaryListeners) => ApplicationConfiguration { auxiliaryListeners, ..state },
        DomainChange::Ssl(ssl) => ApplicationConfiguration { ssl, ..state },
        DomainChange::Tools(tools) => ApplicationConfiguration { tools, ..state },
        DomainChange::Protocols(protocols) => ApplicationConfiguration { protocols, ..state },
        DomainChange::Mcp(mcp) => ApplicationConfiguration { mcp, ..state },
    }
}

/// What is written to the file.
#[derive(Debug)]
pub struct ConfigurationDocument<'a, S, D> {
    pub service: &'a S,
    pub processSelection: &'a PersistedProcessSelection,
    pub recording: &'a D,
    pub auxiliaryListeners: &'a D,
    pub ssl: &'a D,
    pub tools: &'a D,
    pub protocols: &'a D,
    pub mcp: &'a D,
}

/// Whether a document holds every configuration.
pub open spec fn writes<S, D>(
    document: ConfigurationDocument<S, D>,
    state: ApplicationConfiguration<S, D>,
) -> bool {
    &&& *document.service == state.service
    &&& *document.processSelection == state.processSelection
    &&& *document.recording == state.recording
    &&& *document.auxiliaryListeners == state.auxiliaryListeners
    &&& *document.ssl == state.ssl
    &&& *document.tools == state.tools
    &&& *document.protocols == state.protocols
    &&& *document.mcp == state.mcp
}

/// Every configuration as it is in effect.
#[derive(Debug)]
pub struct ConfigurationStore<S, D> {
    pub state: ApplicationConfiguration<S, D>,
}

impl<S, D> ConfigurationStore<S, D> {
    /// What is to be written before a change can take effect.
    pub fn candidate<'a>(&'a self, change: &'a DomainChange<S, D>) -> (result: ConfigurationDocument<
        'a,
        S,
        D,
    >)
        ensures
            writes(result, withDomain(self.state, *change)),
    {
        let current = ConfigurationDocument {
            service: &self.state.service,
            processSelection: &self.state.processSelection,
            recording: &self.state.recording,
            auxiliaryListeners: &self.state.auxiliaryListeners,
            ssl: &self.state.ssl,
            tools: &self.state.tools,
            protocols: &self.state.protocols,
            mcp: &self.state.mcp,
        };
        match change {
            DomainChange::Service(service) => ConfigurationDocument { service, ..current },
            DomainChange::ProcessSelection(processSelection) => ConfigurationDocument { processSelection, ..current },
            DomainChange::Recording(recording) => ConfigurationDocument { recording, ..current },
            DomainChange::AuxiliaryListeners(auxiliaryListeners) => ConfigurationDocument { auxiliaryListeners, ..current },
            DomainChange::Ssl(ssl) => ConfigurationDocument { ssl, ..current },
            DomainChange::Tools(tools) => ConfigurationDocument { tools, ..current },
            DomainChange::Protocols(protocols) => ConfigurationDocument { protocols, ..current },
            DomainChange::Mcp(mcp) => ConfigurationDocument { mcp, ..current },
        }
    }

    /// Lets a change take effect once it was written; one that could not be written changes nothing.
    pub fn replaceConfiguration(&mut self, change: DomainChange<S, D>, failure: Option<String>) -> (result:
        Result<(), String>)
        ensures
            match failure {
                None => result is Ok && final(self).state == withDomain(old(self).state, change),
                Some(cause) => (result matches Err(detail) && detail@ == cause@) && *final(self)
                    == *old(self),
            },
    {
        match failure {
            None => {},
            Some(cause) => return Err(cause),
        }
        match change {
            DomainChange::Service(service) => {
                self.state.service = service;
            },
            DomainChange::ProcessSelection(processSelection) => {
                self.state.processSelection = processSelection;
            },
            DomainChange::Recording(recording) => {
                self.state.recording = recording;
            },
            DomainChange::AuxiliaryListeners(auxiliaryListeners) => {
                self.state.auxiliaryListeners = auxiliaryListeners;
            },
            DomainChange::Ssl(ssl) => {
                self.state.ssl = ssl;
            },
            DomainChange::Tools(tools) => {
                self.state.tools = tools;
            },
            DomainChange::Protocols(protocols) => {
                self.state.protocols = protocols;
            },
            DomainChange::Mcp(mcp) => {
                self.state.mcp = mcp;
            },
        }
        Ok(())
    }
}

/// The change that a new process selection makes, or why it cannot be stored: one that is on needs a
/// path.
pub fn selectionChange<S, D>(update: ProcessSelectionUpdate) -> (result: Result<
    DomainChange<S, D>,
    &'static str,
>)
    ensures
        match result {
            Ok(change) => {
                &&& change is ProcessSelection
                &&& change->ProcessSelection_0.enabled == update.enabled
                &&& views(change->ProcessSelection_0.selectedPaths@) == normalizedPaths(
                    views(update.selectedPaths@),
                )
                &&& update.enabled ==> normalizedPaths(views(update.selectedPaths@)).len() > 0
            },
            Err(message) => update.enabled && normalizedPaths(views(update.selectedPaths@)).len()
                == 0 && message@ == emptySelectionMessage@,
        },
{
    match replaceSelection(update) {
        Ok(selection) => {
            assert(views(selection.selectedPaths@).len() == selection.selectedPaths@.len());
            Ok(DomainChange::ProcessSelection(selection))
        },
        Err(message) => Err(message),
    }
}

/// Replacing one domain leaves every other one as it was.
pub proof fn lawOtherDomainsStay<S, D>(
    state: ApplicationConfiguration<S, D>,
    change: DomainChange<S, D>,
)
    ensures
        change is Service || withDomain(state, change).service == state.service,
        change is ProcessSelection || withDomain(state, change).processSelection == state.processSelection,
        change is Recording || withDomain(state, change).recording == state.recording,
        change is AuxiliaryListeners || withDomain(state, change).auxiliaryListeners == state.auxiliaryListeners,
        change is Ssl || withDomain(state, change).ssl == state.ssl,
        change is Tools || withDomain(state, change).tools == state.tools,
        change is Protocols || withDomain(state, change).protocols == state.protocols,
        change is Mcp || withDomain(state, change).mcp == state.mcp,
        change matches DomainChange::ProcessSelection(selection) ==> withDomain(
            state,
            change,
        ).processSelection == selection,
{
}

/// A change of one domain is what is stored of it.
pub proof fn lawChangedDomainIsStored<S, D>(
    state: ApplicationConfiguration<S, D>,
    change: DomainChange<S, D>,
)
    ensures
        change matches DomainChange::Service(value) ==> withDomain(state, change).service == value,
        change matches DomainChange::Recording(value) ==> withDomain(state, change).recording
            == value,
        change matches DomainChange::AuxiliaryListeners(value) ==> withDomain(
            state,
            change,
        ).auxiliaryListeners == value,
        change matches DomainChange::Ssl(value) ==> withDomain(state, change).ssl == value,
        change matches DomainChange::Tools(value) ==> withDomain(state, change).tools == value,
        change matches DomainChange::Protocols(value) ==> withDomain(state, change).protocols
            == value,
        change matches DomainChange::Mcp(value) ==> withDomain(state, change).mcp == value,
{
}

/// A write that meets no failure creates the directory, encodes, writes a pending file, brings it to the disk
/// and puts it in place, in this order, and then is done.
pub proof fn lawWriteRunsToItsEnd()
    ensures
        nextWriteStep(WriteStep::CreateDirectory, true) == WriteStep::Encode,
        nextWriteStep(WriteStep::Encode, true) == WriteStep::CreatePending,
        nextWriteStep(WriteStep::CreatePending, true) == WriteStep::WritePending,
        nextWriteStep(WriteStep::WritePending, true) == WriteStep::SyncPending,
        nextWriteStep(WriteStep::SyncPending, true) == WriteStep::Replace,
        nextWriteStep(WriteStep::Replace, true) == WriteStep::Done,
{
}

/// A document without retired rules is kept byte for byte, one with them is written again without, and what is no
/// document is refused.
pub proof fn lawDocumentWithoutRetiredRulesStays(bytes: Seq<u8>)
    ensures
        writtenDocument(bytes) is None ==> trimmedDocument(bytes) is None,
        writtenDocument(bytes) is Some && !holdsRetiredRules(bytes) ==> trimmedDocument(bytes)
            == Some((bytes, false)),
        writtenDocument(bytes) is Some && holdsRetiredRules(bytes) ==> trimmedDocument(bytes)
            == Some((encode_utf8(writtenObject(trimmedMembers(bytes))), true)),
        toolMembers(bytes) is None ==> !holdsRetiredRules(bytes),
        toolMembers(bytes) matches Some(tools) ==> (holdsRetiredRules(bytes) <==> exists|i: int|
            0 <= i < tools.len() && (#[trigger] tools[i]).0 == "recordingRules"@),
        objectMembers(bytes) matches Some(members) ==> (memberOf(members, "tools"@) matches Some(
            tools,
        ) ==> toolMembers(bytes) == objectMembers(encode_utf8(tools))),
{
}

/// A document that is written holds every domain of the configuration: two configurations that one document writes
/// are the same in all of them.
pub proof fn lawDocumentHoldsEveryDomain<S, D>(
    document: ConfigurationDocument<S, D>,
    first: ApplicationConfiguration<S, D>,
    second: ApplicationConfiguration<S, D>,
)
    requires
        writes(document, first),
    ensures
        writes(document, second) <==> {
            &&& first.service == second.service
            &&& first.processSelection == second.processSelection
            &&& first.recording == second.recording
            &&& first.auxiliaryListeners == second.auxiliaryListeners
            &&& first.ssl == second.ssl
            &&& first.tools == second.tools
            &&& first.protocols == second.protocols
            &&& first.mcp == second.mcp
        },
        *document.service == first.service,
        *document.recording == first.recording,
        *document.ssl == first.ssl,
        *document.tools == first.tools,
{
}

} // verus!
