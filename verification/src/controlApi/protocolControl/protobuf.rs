//! Protocol buffers: descriptors, the routes that bind them to locations, and decoding.

use crate::controlApi::protocolControl::ProtocolError;
use crate::encoding::{base64Bytes, decodeBase64};
use crate::identifier::{
    canonicalForm, canonicalText, isRandomIdentifier, newIdentifier, parseIdentifier,
    readIdentifier,
};
use crate::text::{
    asciiLowerText, asciiLowered, byteLen, byteLength, concatThree, copyText, equalText,
    optionalView, startsWith, startsWithText, trimText, trimmed,
};
use vstd::prelude::*;

verus! {

/// The largest descriptor in bytes.
pub const maximumDescriptorBytes: usize = 16777216;

/// A registered descriptor.
#[derive(Clone, Debug)]
pub struct ProtobufSchemaEntry {
    pub id: String,
    pub name: String,
    pub descriptorPath: String,
    pub defaultMessageType: String,
}

/// The mathematical value of a registered descriptor.
pub struct SchemaView {
    pub id: Seq<char>,
    pub name: Seq<char>,
    pub descriptorPath: Seq<char>,
    pub defaultMessageType: Seq<char>,
}

impl View for ProtobufSchemaEntry {
    type V = SchemaView;

    open spec fn view(&self) -> SchemaView {
        SchemaView {
            id: self.id@,
            name: self.name@,
            descriptorPath: self.descriptorPath@,
            defaultMessageType: self.defaultMessageType@,
        }
    }
}

/// The message types of a location. The location itself is matched elsewhere.
#[derive(Clone, Debug)]
pub struct ProtobufRoute<L> {
    pub id: String,
    pub location: L,
    pub messageType: String,
    pub responseMessageType: Option<String>,
    pub schemaId: String,
}

/// The mathematical value of a route.
pub struct RouteView<L> {
    pub id: Seq<char>,
    pub location: L,
    pub messageType: Seq<char>,
    pub responseMessageType: Option<Seq<char>>,
    pub schemaId: Seq<char>,
}

impl<L> View for ProtobufRoute<L> {
    type V = RouteView<L>;

    open spec fn view(&self) -> RouteView<L> {
        RouteView {
            id: self.id@,
            location: self.location,
            messageType: self.messageType@,
            responseMessageType: optionalView(self.responseMessageType),
            schemaId: self.schemaId@,
        }
    }
}

/// The values of routes.
pub open spec fn routeViews<L>(routes: Seq<ProtobufRoute<L>>) -> Seq<RouteView<L>> {
    routes.map_values(|route: ProtobufRoute<L>| route@)
}

/// The values of registered descriptors.
pub open spec fn schemaViews(schemas: Seq<ProtobufSchemaEntry>) -> Seq<SchemaView> {
    schemas.map_values(|schema: ProtobufSchemaEntry| schema@)
}

/// The configuration of decoding.
#[derive(Clone, Debug)]
pub struct ProtobufConfiguration<L> {
    pub enabled: bool,
    pub schemas: Vec<ProtobufSchemaEntry>,
    pub routes: Vec<ProtobufRoute<L>>,
}

/// A wish to replace the switch and the routes.
#[derive(Debug)]
pub struct ProtobufConfigurationUpdate<L> {
    pub enabled: bool,
    pub routes: Vec<ProtobufRoute<L>>,
}

impl<L> ProtobufConfiguration<L> {
    /// Decoding is off and knows no descriptors.
    pub fn new() -> (result: ProtobufConfiguration<L>)
        ensures
            !result.enabled,
            result.schemas@.len() == 0,
            result.routes@.len() == 0,
    {
        ProtobufConfiguration { enabled: false, schemas: Vec::new(), routes: Vec::new() }
    }

    /// The configuration with the switch and the routes of an update and its own descriptors.
    pub fn replaced(&self, update: ProtobufConfigurationUpdate<L>) -> (result:
        ProtobufConfiguration<L>)
        ensures
            result.enabled == update.enabled,
            result.routes == update.routes,
            schemaViews(result.schemas@) == schemaViews(self.schemas@),
    {
        ProtobufConfiguration {
            enabled: update.enabled,
            schemas: copySchemas(&self.schemas),
            routes: update.routes,
        }
    }
}

/// Independent copies of registered descriptors.
pub fn copySchemas(schemas: &Vec<ProtobufSchemaEntry>) -> (result: Vec<ProtobufSchemaEntry>)
    ensures
        schemaViews(result@) == schemaViews(schemas@),
{
    let ghost all = schemaViews(schemas@);
    let mut result: Vec<ProtobufSchemaEntry> = Vec::new();
    let mut i: usize = 0;
    while i < schemas.len()
        invariant
            i <= schemas.len(),
            all == schemaViews(schemas@),
            schemaViews(result@) == all.take(i as int),
        decreases schemas.len() - i,
    {
        let ghost before = result@;
        result.push(
            ProtobufSchemaEntry {
                id: copyText(schemas[i].id.as_str()),
                name: copyText(schemas[i].name.as_str()),
                descriptorPath: copyText(schemas[i].descriptorPath.as_str()),
                defaultMessageType: copyText(schemas[i].defaultMessageType.as_str()),
            },
        );
        assert(schemaViews(result@) == schemaViews(before).push(all[i as int]));
        i += 1;
        assert(schemaViews(result@) == all.take(i as int));
    }
    assert(all.take(i as int) == all);
    result
}

// ---------------------------------------------------------------------------
// Descriptors
// ---------------------------------------------------------------------------

#[verifier::external_type_specification]
#[verifier::external_body]
pub struct ExDescriptorPool(prost_reflect::DescriptorPool);

#[verifier::external_type_specification]
#[verifier::external_body]
pub struct ExDynamicMessage(prost_reflect::DynamicMessage);

/// The bytes that a pool of descriptors was read from.
pub uninterp spec fn poolSource(pool: prost_reflect::DescriptorPool) -> Seq<u8>;

/// Whether bytes are a set of descriptors.
pub uninterp spec fn isDescriptorSet(bytes: Seq<u8>) -> bool;

/// Whether a set of descriptors describes a message.
pub uninterp spec fn describesMessage(bytes: Seq<u8>, name: Seq<char>) -> bool;

/// Reads a set of descriptors.
///
/// Trusted: `prost_reflect::DescriptorPool::decode`. Whether it succeeds depends on the bytes alone,
/// and what the pool answers later depends on nothing else.
#[verifier::external_body]
pub(crate) fn readDescriptors(bytes: &[u8]) -> (result: Option<prost_reflect::DescriptorPool>)
    ensures
        result is Some == isDescriptorSet(bytes@),
        result matches Some(pool) ==> poolSource(pool) == bytes@,
{
    prost_reflect::DescriptorPool::decode(bytes).ok()
}

/// Whether a pool describes a message.
///
/// Trusted: `prost_reflect::DescriptorPool::get_message_by_name`.
#[verifier::external_body]
pub(crate) fn knowsMessage(pool: &prost_reflect::DescriptorPool, name: &str) -> (result: bool)
    ensures
        result == describesMessage(poolSource(*pool), name@),
{
    pool.get_message_by_name(name).is_some()
}

/// The descriptors, the message type and the bytes that a message was read from.
pub uninterp spec fn messageSource(message: prost_reflect::DynamicMessage) -> (
    Seq<u8>,
    Seq<char>,
    Seq<u8>,
);

/// Whether bytes are a message of a type.
pub uninterp spec fn isMessage(descriptors: Seq<u8>, name: Seq<char>, bytes: Seq<u8>) -> bool;

/// The JSON form of a message, if it has one.
pub uninterp spec fn messageJson(
    descriptors: Seq<u8>,
    name: Seq<char>,
    bytes: Seq<u8>,
) -> Option<Seq<char>>;

/// Reads a message.
///
/// Trusted: `prost_reflect::DynamicMessage::decode`. Whether it succeeds depends on the descriptors,
/// the type and the bytes alone.
#[verifier::external_body]
pub(crate) fn readMessage(
    pool: &prost_reflect::DescriptorPool,
    name: &str,
    bytes: &[u8],
) -> (result: Option<prost_reflect::DynamicMessage>)
    requires
        describesMessage(poolSource(*pool), name@),
    ensures
        result is Some == isMessage(poolSource(*pool), name@, bytes@),
        result matches Some(message) ==> messageSource(message) == (
            poolSource(*pool),
            name@,
            bytes@,
        ),
{
    let descriptor = pool.get_message_by_name(name).expect("message descriptor");
    prost_reflect::DynamicMessage::decode(descriptor, bytes).ok()
}

/// Writes a message as JSON.
///
/// Trusted: `serde_json::to_value` on a `prost_reflect::DynamicMessage`, written as text. The text
/// depends on what the message was read from alone.
#[verifier::external_body]
pub(crate) fn writeMessage(message: &prost_reflect::DynamicMessage) -> (result: Option<String>)
    ensures
        optionalView(result) == messageJson(
            messageSource(*message).0,
            messageSource(*message).1,
            messageSource(*message).2,
        ),
{
    serde_json::to_value(message).ok().map(|json| json.to_string())
}

/// A registered descriptor's identifier and its pool.
pub struct SchemaPool {
    pub id: String,
    pub pool: prost_reflect::DescriptorPool,
}

/// The identifier of a pool and the bytes it was read from.
pub type PoolView = (Seq<char>, Seq<u8>);

/// The values of pools.
pub open spec fn poolViews(pools: Seq<SchemaPool>) -> Seq<PoolView> {
    pools.map_values(|entry: SchemaPool| (entry.id@, poolSource(entry.pool)))
}

/// The place of a pool by its identifier, or the length where there is none.
pub open spec fn poolIndex(pools: Seq<PoolView>, id: Seq<char>) -> int
    decreases pools.len(),
{
    if pools.len() == 0 || pools[0].0 == id {
        0
    } else {
        1 + poolIndex(pools.drop_first(), id)
    }
}

/// The bytes of the descriptors with an identifier.
pub open spec fn descriptorsOf(pools: Seq<PoolView>, id: Seq<char>) -> Option<Seq<u8>> {
    let at = poolIndex(pools, id);
    if at < pools.len() {
        Some(pools[at].1)
    } else {
        None
    }
}

fn findPool(pools: &Vec<SchemaPool>, id: &str) -> (result: usize)
    ensures
        result == poolIndex(poolViews(pools@), id@),
        result <= pools@.len(),
{
    let ghost all = poolViews(pools@);
    let mut i: usize = 0;
    assert(all.skip(0) == all);
    while i < pools.len() && !equalText(pools[i].id.as_str(), id)
        invariant
            i <= pools.len(),
            all == poolViews(pools@),
            poolIndex(all, id@) == i + poolIndex(all.skip(i as int), id@),
        decreases pools.len() - i,
    {
        assert(all.skip(i as int)[0].0 == pools@[i as int].id@);
        assert(all.skip(i as int).drop_first() == all.skip(i + 1));
        i += 1;
    }
    if i < pools.len() {
        assert(all.skip(i as int)[0].0 == pools@[i as int].id@);
    }
    i
}

/// An upload of descriptors.
#[derive(Debug)]
pub struct ProtobufDescriptorUpload {
    pub name: String,
    pub defaultMessageType: String,
    pub base64: String,
}

/// Whether the texts of an upload keep their bounds.
pub open spec fn isBoundedUpload(upload: ProtobufDescriptorUpload) -> bool {
    &&& trimmed(upload.name@).len() > 0
    &&& byteLength(upload.name@) <= 256
    &&& trimmed(upload.defaultMessageType@).len() > 0
    &&& byteLength(upload.defaultMessageType@) <= 512
    &&& byteLength(upload.base64@) <= 2 * maximumDescriptorBytes
}

/// Checks the texts of an upload.
pub fn validateDescriptorUpload(upload: &ProtobufDescriptorUpload) -> (result: Result<
    (),
    ProtocolError,
>)
    ensures
        result == if isBoundedUpload(*upload) {
            Ok::<(), ProtocolError>(())
        } else {
            Err(ProtocolError::InvalidDescriptor)
        },
{
    let name = trimText(upload.name.as_str());
    let messageType = trimText(upload.defaultMessageType.as_str());
    if name.as_str().is_empty() || byteLen(upload.name.as_str()) > 256
        || messageType.as_str().is_empty() || byteLen(upload.defaultMessageType.as_str()) > 512
        || byteLen(upload.base64.as_str()) > 2 * maximumDescriptorBytes {
        return Err(ProtocolError::InvalidDescriptor);
    }
    Ok(())
}

/// Why descriptors cannot be registered, if so: their size, their form, or the message they lack.
pub open spec fn descriptorProblem(bytes: Seq<u8>, messageType: Seq<char>) -> Option<
    ProtocolError,
> {
    if bytes.len() == 0 || bytes.len() > maximumDescriptorBytes || !isDescriptorSet(bytes) {
        Some(ProtocolError::InvalidDescriptor)
    } else if !describesMessage(bytes, messageType) {
        Some(ProtocolError::InvalidDescriptorMessageType)
    } else {
        None
    }
}

/// Reads descriptors that hold a message.
pub fn loadDescriptor(bytes: &Vec<u8>, messageType: &str) -> (result: Result<
    prost_reflect::DescriptorPool,
    ProtocolError,
>)
    ensures
        match result {
            Ok(pool) => descriptorProblem(bytes@, messageType@) is None && poolSource(pool)
                == bytes@,
            Err(error) => descriptorProblem(bytes@, messageType@) == Some(error),
        },
{
    if bytes.len() == 0 || bytes.len() > maximumDescriptorBytes {
        return Err(ProtocolError::InvalidDescriptor);
    }
    match readDescriptors(bytes.as_slice()) {
        None => Err(ProtocolError::InvalidDescriptor),
        Some(pool) => if knowsMessage(&pool, messageType) {
            Ok(pool)
        } else {
            Err(ProtocolError::InvalidDescriptorMessageType)
        },
    }
}

/// Descriptors that were checked and wait to be written.
pub struct AdmittedDescriptor {
    pub bytes: Vec<u8>,
    pub pool: prost_reflect::DescriptorPool,
}

/// Why an upload is refused, if so.
pub open spec fn uploadProblem(
    upload: ProtobufDescriptorUpload,
    decoded: Option<Seq<u8>>,
) -> Option<ProtocolError> {
    if !isBoundedUpload(upload) {
        Some(ProtocolError::InvalidDescriptor)
    } else {
        match decoded {
            None => Some(ProtocolError::InvalidDescriptor),
            Some(bytes) => descriptorProblem(bytes, upload.defaultMessageType@),
        }
    }
}

/// Checks an upload.
pub fn admitDescriptor(upload: &ProtobufDescriptorUpload) -> (result: Result<
    AdmittedDescriptor,
    ProtocolError,
>)
    ensures
        match result {
            Ok(admitted) => {
                &&& uploadProblem(*upload, base64Bytes(upload.base64@)) is None
                &&& base64Bytes(upload.base64@) == Some(admitted.bytes@)
                &&& poolSource(admitted.pool) == admitted.bytes@
            },
            Err(error) => uploadProblem(*upload, base64Bytes(upload.base64@)) == Some(error),
        },
{
    match validateDescriptorUpload(upload) {
        Ok(_) => {},
        Err(error) => return Err(error),
    }
    match decodeBase64(upload.base64.as_str()) {
        None => Err(ProtocolError::InvalidDescriptor),
        Some(bytes) => match loadDescriptor(&bytes, upload.defaultMessageType.as_str()) {
            Ok(pool) => Ok(AdmittedDescriptor { bytes, pool }),
            Err(error) => Err(error),
        },
    }
}

/// The path of a descriptor file below the data directory.
pub open spec fn descriptorPathOf(id: Seq<char>) -> Seq<char> {
    "protobufDescriptors/"@ + id + ".desc"@
}

/// The entry of an upload that was written under an identifier.
pub fn schemaEntry(id: u128, upload: &ProtobufDescriptorUpload) -> (result: ProtobufSchemaEntry)
    ensures
        result@ == (SchemaView {
            id: canonicalForm(id),
            name: trimmed(upload.name@),
            descriptorPath: descriptorPathOf(canonicalForm(id)),
            defaultMessageType: upload.defaultMessageType@,
        }),
        readIdentifier(result@.id) == Some(id),
        isStoredSchema(result@),
{
    let text = canonicalText(id);
    let descriptorPath = concatThree("protobufDescriptors/", text.as_str(), ".desc");
    ProtobufSchemaEntry {
        id: text,
        name: trimText(upload.name.as_str()),
        descriptorPath,
        defaultMessageType: copyText(upload.defaultMessageType.as_str()),
    }
}

/// The entry of an upload under a fresh identifier, with that identifier.
pub fn newSchemaEntry(upload: &ProtobufDescriptorUpload) -> (result: (u128, ProtobufSchemaEntry))
    ensures
        isRandomIdentifier(result.0),
        result.1@ == (SchemaView {
            id: canonicalForm(result.0),
            name: trimmed(upload.name@),
            descriptorPath: descriptorPathOf(canonicalForm(result.0)),
            defaultMessageType: upload.defaultMessageType@,
        }),
        isStoredSchema(result.1@),
{
    let id = newIdentifier();
    (id, schemaEntry(id, upload))
}

/// The name of the file that a descriptor is written to before it gets its own.
pub fn pendingDescriptorName(id: u128) -> (result: String)
    ensures
        result@ == "."@ + canonicalForm(id) + ".pending"@,
{
    concatThree(".", canonicalText(id).as_str(), ".pending")
}

/// What an upload does next.
#[derive(Clone, Copy, Debug, PartialEq, Eq, Structural)]
pub enum UploadStep {
    /// Write the descriptor under its pending name.
    Write,
    /// Give the descriptor its own name.
    Rename,
    /// Remove the pending file, then report the failure.
    RemovePending,
    /// Store the configuration with the new entry.
    Persist,
    /// Remove the descriptor, then report the failure.
    RemoveDescriptor,
    /// Put descriptor and entry into effect.
    Publish,
    Done,
    /// Nothing has changed.
    Failed,
}

/// What a step of an upload leads to.
pub open spec fn nextUploadStep(step: UploadStep, succeeded: bool) -> UploadStep {
    match step {
        UploadStep::Write => if succeeded {
            UploadStep::Rename
        } else {
            UploadStep::RemovePending
        },
        UploadStep::Rename => if succeeded {
            UploadStep::Persist
        } else {
            UploadStep::RemovePending
        },
        UploadStep::RemovePending => UploadStep::Failed,
        UploadStep::Persist => if succeeded {
            UploadStep::Publish
        } else {
            UploadStep::RemoveDescriptor
        },
        UploadStep::RemoveDescriptor => UploadStep::Failed,
        UploadStep::Publish => UploadStep::Done,
        UploadStep::Done => UploadStep::Done,
        UploadStep::Failed => UploadStep::Failed,
    }
}

impl UploadStep {
    /// What the step leads to; whatever could not be stored is a failure of the storage.
    pub fn uploadDescriptor(self, succeeded: bool) -> (result: Result<UploadStep, ProtocolError>)
        ensures
            match result {
                Ok(step) => step == nextUploadStep(self, succeeded) && step != UploadStep::Failed,
                Err(error) => nextUploadStep(self, succeeded) == UploadStep::Failed && error
                    == ProtocolError::Storage,
            },
    {
        match self {
            UploadStep::Write => if succeeded {
                Ok(UploadStep::Rename)
            } else {
                Ok(UploadStep::RemovePending)
            },
            UploadStep::Rename => if succeeded {
                Ok(UploadStep::Persist)
            } else {
                Ok(UploadStep::RemovePending)
            },
            UploadStep::RemovePending => Err(ProtocolError::Storage),
            UploadStep::Persist => if succeeded {
                Ok(UploadStep::Publish)
            } else {
                Ok(UploadStep::RemoveDescriptor)
            },
            UploadStep::RemoveDescriptor => Err(ProtocolError::Storage),
            UploadStep::Publish => Ok(UploadStep::Done),
            UploadStep::Done => Ok(UploadStep::Done),
            UploadStep::Failed => Err(ProtocolError::Storage),
        }
    }
}

/// A descriptor is in effect only once it and its entry are stored, and an upload that fails leaves no
/// file behind: what was written before, were it only in part, is removed first.
pub proof fn lawUploadLeavesNothingHalf(step: UploadStep, succeeded: bool)
    ensures
        nextUploadStep(step, succeeded) is Publish ==> step is Persist && succeeded,
        nextUploadStep(step, succeeded) is Failed ==> step is RemovePending || step
            is RemoveDescriptor || step is Failed,
        (step is Write || step is Rename) && !succeeded ==> nextUploadStep(step, succeeded)
            is RemovePending,
        step is Persist && !succeeded ==> nextUploadStep(step, succeeded) is RemoveDescriptor,
{
}

/// Whether a stored entry names a descriptor file of its own.
pub open spec fn isStoredSchema(schema: SchemaView) -> bool {
    readIdentifier(schema.id) is Some && schema.descriptorPath == descriptorPathOf(schema.id)
}

/// Checks that a stored entry names a descriptor file of its own.
pub fn checkStoredSchema(schema: &ProtobufSchemaEntry) -> (result: Result<(), ProtocolError>)
    ensures
        result == if isStoredSchema(schema@) {
            Ok::<(), ProtocolError>(())
        } else {
            Err(ProtocolError::InvalidDescriptor)
        },
{
    let expected = concatThree("protobufDescriptors/", schema.id.as_str(), ".desc");
    if parseIdentifier(schema.id.as_str()).is_none() || !equalText(
        schema.descriptorPath.as_str(),
        expected.as_str(),
    ) {
        return Err(ProtocolError::InvalidDescriptor);
    }
    Ok(())
}

/// Adds the pool of a stored entry to those that were read before it. An entry that stands twice is
/// refused like one whose message type is missing.
pub fn loadDescriptorPools(
    pools: Vec<SchemaPool>,
    schema: &ProtobufSchemaEntry,
    bytes: &Vec<u8>,
) -> (result: Result<Vec<SchemaPool>, ProtocolError>)
    ensures
        match result {
            Ok(loaded) => {
                &&& descriptorProblem(bytes@, schema@.defaultMessageType) is None
                &&& poolIndex(poolViews(pools@), schema@.id) == pools@.len()
                &&& poolViews(loaded@) == poolViews(pools@).push((schema@.id, bytes@))
            },
            Err(error) => match descriptorProblem(bytes@, schema@.defaultMessageType) {
                Some(problem) => error == problem,
                None => poolIndex(poolViews(pools@), schema@.id) < pools@.len() && error
                    == ProtocolError::InvalidDescriptorMessageType,
            },
        },
{
    let pool = match loadDescriptor(bytes, schema.defaultMessageType.as_str()) {
        Ok(pool) => pool,
        Err(error) => return Err(error),
    };
    if findPool(&pools, schema.id.as_str()) < pools.len() {
        return Err(ProtocolError::InvalidDescriptorMessageType);
    }
    let ghost before = poolViews(pools@);
    let mut loaded = pools;
    loaded.push(SchemaPool { id: copyText(schema.id.as_str()), pool });
    assert(poolViews(loaded@) == before.push((schema@.id, bytes@)));
    Ok(loaded)
}

// ---------------------------------------------------------------------------
// Routes
// ---------------------------------------------------------------------------

/// Whether a schema with an identifier is registered.
pub open spec fn hasSchema(schemas: Seq<SchemaView>, id: Seq<char>) -> bool {
    exists|i: int| 0 <= i < schemas.len() && (#[trigger] schemas[i]).id == id
}

/// Whether a message type can be used with descriptors.
pub open spec fn isUsableType(descriptors: Option<Seq<u8>>, messageType: Seq<char>) -> bool {
    &&& messageType.len() > 0
    &&& descriptors matches Some(bytes)
    &&& describesMessage(bytes, messageType)
}

/// Whether one route can be used, apart from its identifier being used once.
pub open spec fn isUsableRoute<L>(
    route: RouteView<L>,
    locationValid: bool,
    schemas: Seq<SchemaView>,
    pools: Seq<PoolView>,
) -> bool {
    &&& trimmed(route.id).len() > 0
    &&& locationValid
    &&& hasSchema(schemas, route.schemaId)
    &&& isUsableType(descriptorsOf(pools, route.schemaId), route.messageType)
    &&& (route.responseMessageType matches Some(name) ==> isUsableType(
        descriptorsOf(pools, route.schemaId),
        name,
    ))
}

/// Whether all routes can be used and each identifier stands once.
pub open spec fn areUsableRoutes<L>(
    routes: Seq<RouteView<L>>,
    locationsValid: Seq<bool>,
    schemas: Seq<SchemaView>,
    pools: Seq<PoolView>,
) -> bool {
    &&& forall|i: int|
        0 <= i < routes.len() ==> isUsableRoute(
            #[trigger] routes[i],
            locationsValid[i],
            schemas,
            pools,
        )
    &&& forall|i: int, j: int|
        0 <= i < j < routes.len() ==> (#[trigger] routes[i]).id != (#[trigger] routes[j]).id
}

fn schemaKnown(schemas: &Vec<ProtobufSchemaEntry>, id: &str) -> (result: bool)
    ensures
        result == hasSchema(schemaViews(schemas@), id@),
{
    let ghost all = schemaViews(schemas@);
    let mut i: usize = 0;
    while i < schemas.len()
        invariant
            i <= schemas.len(),
            all == schemaViews(schemas@),
            forall|k: int| 0 <= k < i ==> (#[trigger] all[k]).id != id@,
        decreases schemas.len() - i,
    {
        assert(all[i as int].id == schemas@[i as int].id@);
        if equalText(schemas[i].id.as_str(), id) {
            return true;
        }
        i += 1;
    }
    false
}

fn typeUsable(pools: &Vec<SchemaPool>, schemaId: &str, messageType: &str) -> (result: bool)
    ensures
        result == isUsableType(descriptorsOf(poolViews(pools@), schemaId@), messageType@),
{
    let at: usize = findPool(pools, schemaId);
    if at >= pools.len() || messageType.is_empty() {
        return false;
    }
    assert(poolViews(pools@)[at as int].1 == poolSource(pools@[at as int].pool));
    knowsMessage(&pools[at].pool, messageType)
}

/// Checks routes. `locationsValid` holds, for each route, whether its location can be matched.
pub fn validateProtobufRoutes<L>(
    routes: &Vec<ProtobufRoute<L>>,
    locationsValid: &Vec<bool>,
    schemas: &Vec<ProtobufSchemaEntry>,
    pools: &Vec<SchemaPool>,
) -> (result: Result<(), ProtocolError>)
    requires
        locationsValid.len() == routes.len(),
    ensures
        result == if areUsableRoutes(
            routeViews(routes@),
            locationsValid@,
            schemaViews(schemas@),
            poolViews(pools@),
        ) {
            Ok::<(), ProtocolError>(())
        } else {
            Err(ProtocolError::InvalidProtobufRoute)
        },
{
    let ghost all = routeViews(routes@);
    let ghost known = schemaViews(schemas@);
    let ghost loaded = poolViews(pools@);
    let mut i: usize = 0;
    while i < routes.len()
        invariant
            i <= routes.len(),
            locationsValid.len() == routes.len(),
            all == routeViews(routes@),
            known == schemaViews(schemas@),
            loaded == poolViews(pools@),
            forall|k: int|
                0 <= k < i ==> isUsableRoute(#[trigger] all[k], locationsValid@[k], known, loaded),
            forall|a: int, b: int|
                0 <= a < b < i ==> (#[trigger] all[a]).id != (#[trigger] all[b]).id,
        decreases routes.len() - i,
    {
        let route = &routes[i];
        assert(all[i as int] == route@);
        let id = trimText(route.id.as_str());
        if id.as_str().is_empty() {
            return Err(ProtocolError::InvalidProtobufRoute);
        }
        let mut k: usize = 0;
        while k < i
            invariant
                k <= i < routes.len(),
                all == routeViews(routes@),
                route@ == all[i as int],
                locationsValid.len() == routes.len(),
                known == schemaViews(schemas@),
                loaded == poolViews(pools@),
                forall|a: int| 0 <= a < k ==> (#[trigger] all[a]).id != all[i as int].id,
            decreases i - k,
        {
            assert(all[k as int].id == routes@[k as int].id@);
            if equalText(routes[k].id.as_str(), route.id.as_str()) {
                return Err(ProtocolError::InvalidProtobufRoute);
            }
            k += 1;
        }
        if !locationsValid[i] || !schemaKnown(schemas, route.schemaId.as_str()) || !typeUsable(
            pools,
            route.schemaId.as_str(),
            route.messageType.as_str(),
        ) {
            return Err(ProtocolError::InvalidProtobufRoute);
        }
        match &route.responseMessageType {
            Some(name) => {
                if !typeUsable(pools, route.schemaId.as_str(), name.as_str()) {
                    return Err(ProtocolError::InvalidProtobufRoute);
                }
            },
            None => {},
        }
        i += 1;
    }
    Ok(())
}

impl<L> ProtobufConfiguration<L> {
    /// The configuration that an update asks for, where its routes can be used. It comes into effect once
    /// it is stored.
    pub fn replaceProtobufConfiguration(
        &self,
        update: ProtobufConfigurationUpdate<L>,
        locationsValid: &Vec<bool>,
        pools: &Vec<SchemaPool>,
    ) -> (result: Result<ProtobufConfiguration<L>, ProtocolError>)
        requires
            locationsValid.len() == update.routes.len(),
        ensures
            match result {
                Ok(candidate) => {
                    &&& areUsableRoutes(
                        routeViews(update.routes@),
                        locationsValid@,
                        schemaViews(self.schemas@),
                        poolViews(pools@),
                    )
                    &&& candidate.enabled == update.enabled
                    &&& candidate.routes == update.routes
                    &&& schemaViews(candidate.schemas@) == schemaViews(self.schemas@)
                },
                Err(error) => error == ProtocolError::InvalidProtobufRoute && !areUsableRoutes(
                    routeViews(update.routes@),
                    locationsValid@,
                    schemaViews(self.schemas@),
                    poolViews(pools@),
                ),
            },
    {
        match validateProtobufRoutes(&update.routes, locationsValid, &self.schemas, pools) {
            Ok(_) => Ok(self.replaced(update)),
            Err(error) => Err(error),
        }
    }
}

/// The place of the first route whose location matches; the order of the routes is their priority.
pub open spec fn firstMatch(matches: Seq<bool>) -> Option<int>
    decreases matches.len(),
{
    if matches.len() == 0 {
        None
    } else {
        match firstMatch(matches.drop_last()) {
            Some(i) => Some(i),
            None => if matches.last() {
                Some(matches.len() - 1)
            } else {
                None
            },
        }
    }
}

/// The place of the first route whose location matches.
pub fn selectProtobufRoute(matches: &Vec<bool>) -> (result: Option<usize>)
    ensures
        match result {
            Some(i) => i < matches@.len() && firstMatch(matches@) == Some(i as int),
            None => firstMatch(matches@) is None,
        },
{
    let mut i: usize = 0;
    assert(matches@.take(0).len() == 0);
    while i < matches.len()
        invariant
            i <= matches.len(),
            firstMatch(matches@.take(i as int)) is None,
        decreases matches.len() - i,
    {
        assert(matches@.take(i + 1).drop_last() == matches@.take(i as int));
        if matches[i] {
            proof {
                lemmaFirstMatch(matches@, i + 1);
            }
            return Some(i);
        }
        i += 1;
    }
    assert(matches@.take(i as int) == matches@);
    None
}

proof fn lemmaFirstMatch(matches: Seq<bool>, upTo: int)
    requires
        0 <= upTo <= matches.len(),
        firstMatch(matches.take(upTo)) is Some,
    ensures
        firstMatch(matches) == firstMatch(matches.take(upTo)),
    decreases matches.len() - upTo,
{
    if upTo == matches.len() {
        assert(matches.take(upTo) == matches);
    } else {
        assert(matches.take(upTo + 1).drop_last() == matches.take(upTo));
        lemmaFirstMatch(matches, upTo + 1);
    }
}

/// The route that is chosen matches, and none before it does.
pub proof fn lawFirstMatchHasPriority(matches: Seq<bool>)
    ensures
        match firstMatch(matches) {
            Some(i) => 0 <= i < matches.len() && matches[i] && forall|k: int|
                0 <= k < i ==> !#[trigger] matches[k],
            None => forall|k: int| 0 <= k < matches.len() ==> !#[trigger] matches[k],
        },
    decreases matches.len(),
{
    if matches.len() > 0 {
        let before = matches.drop_last();
        lawFirstMatchHasPriority(before);
        assert forall|k: int| 0 <= k < before.len() implies #[trigger] matches[k]
            == before[k] by {}
    }
}

// ---------------------------------------------------------------------------
// Decoding
// ---------------------------------------------------------------------------

/// The length that four bytes write, most significant first.
pub open spec fn frameLength(bytes: Seq<u8>) -> int {
    bytes[1] * 0x100_0000 + bytes[2] * 0x1_0000 + bytes[3] * 0x100 + bytes[4]
}

/// The message inside a body: all of it, or the one uncompressed frame of a gRPC body.
pub open spec fn payloadOf(contentType: Seq<char>, bytes: Seq<u8>) -> Result<Seq<u8>, Seq<char>> {
    if !startsWith(asciiLowered(contentType), "application/grpc"@) {
        Ok(bytes)
    } else if bytes.len() < 5 {
        Err("grpcFrameTooShort"@)
    } else if bytes[0] != 0 {
        Err("grpcCompressionUnsupported"@)
    } else if frameLength(bytes) != bytes.len() - 5 {
        Err("grpcFrameLengthMismatch"@)
    } else {
        Ok(bytes.skip(5))
    }
}

/// The message inside a body.
pub fn grpcPayload(contentType: &str, bytes: &Vec<u8>) -> (result: Result<Vec<u8>, &'static str>)
    ensures
        match result {
            Ok(payload) => payloadOf(contentType@, bytes@) == Ok::<Seq<u8>, Seq<char>>(payload@),
            Err(error) => payloadOf(contentType@, bytes@) == Err::<Seq<u8>, Seq<char>>(error@),
        },
{
    let lowered = asciiLowerText(contentType);
    let framed = startsWithText(lowered.as_str(), "application/grpc");
    if framed {
        if bytes.len() < 5 {
            return Err("grpcFrameTooShort");
        }
        if bytes[0] != 0 {
            return Err("grpcCompressionUnsupported");
        }
        let length: u64 = bytes[1] as u64 * 0x100_0000 + bytes[2] as u64 * 0x1_0000
            + bytes[3] as u64 * 0x100 + bytes[4] as u64;
        if length != (bytes.len() - 5) as u64 {
            return Err("grpcFrameLengthMismatch");
        }
    }
    let start: usize = if framed {
        5
    } else {
        0
    };
    let mut payload: Vec<u8> = Vec::new();
    let mut i: usize = start;
    while i < bytes.len()
        invariant
            start <= i <= bytes.len(),
            payload@ == bytes@.subrange(start as int, i as int),
        decreases bytes.len() - i,
    {
        payload.push(bytes[i]);
        i += 1;
        assert(payload@ == bytes@.subrange(start as int, i as int));
    }
    assert(payload@ == bytes@.skip(start as int));
    assert(bytes@.skip(0) == bytes@);
    Ok(payload)
}

/// A frame around a message gives the message back.
pub proof fn lawFrameHoldsItsMessage(contentType: Seq<char>, message: Seq<u8>, frame: Seq<u8>)
    requires
        startsWith(asciiLowered(contentType), "application/grpc"@),
        frame.len() == message.len() + 5,
        frame[0] == 0,
        frameLength(frame) == message.len(),
        frame.skip(5) == message,
    ensures
        payloadOf(contentType, frame) == Ok::<Seq<u8>, Seq<char>>(message),
{
}

/// The two sides of a transaction.
#[derive(Clone, Copy, Debug, PartialEq, Eq, Structural)]
pub enum DecodeSide {
    Request,
    Response,
}

/// A decoded body, or why it could not be decoded.
#[derive(Debug)]
pub struct DecodedProtobufView {
    pub messageType: Option<String>,
    /// The message as JSON text.
    pub json: Option<String>,
    pub decodeError: Option<String>,
}

/// The message type, the JSON text and the error of a decoding.
pub type DecodedView = (Option<Seq<char>>, Option<Seq<char>>, Option<Seq<char>>);

impl View for DecodedProtobufView {
    type V = DecodedView;

    open spec fn view(&self) -> DecodedView {
        (
            optionalView(self.messageType),
            optionalView(self.json),
            optionalView(self.decodeError),
        )
    }
}

/// The message type of a side; a response without a type of its own has that of the request.
pub open spec fn sideType<L>(route: RouteView<L>, side: DecodeSide) -> Seq<char> {
    match (side, route.responseMessageType) {
        (DecodeSide::Response, Some(name)) => name,
        _ => route.messageType,
    }
}

/// A decoding that failed.
pub open spec fn decodeFailure(messageType: Option<Seq<char>>, error: Seq<char>) -> DecodedView {
    (messageType, None, Some(error))
}

/// What a payload decodes to.
pub open spec fn decodedPayload(
    descriptors: Seq<u8>,
    messageType: Seq<char>,
    payload: Seq<u8>,
) -> DecodedView {
    if !isMessage(descriptors, messageType, payload) {
        decodeFailure(Some(messageType), "protobufDecodeFailed"@)
    } else {
        match messageJson(descriptors, messageType, payload) {
            Some(json) => (Some(messageType), Some(json), None),
            None => decodeFailure(Some(messageType), "protobufJsonSerializationFailed"@),
        }
    }
}

/// What a body decodes to. Each failure is told by its own code, the first that applies.
pub open spec fn decodedBody<L>(
    truncated: bool,
    enabled: bool,
    routes: Seq<RouteView<L>>,
    matches: Seq<bool>,
    pools: Seq<PoolView>,
    side: DecodeSide,
    contentType: Seq<char>,
    bytes: Seq<u8>,
) -> DecodedView {
    if truncated {
        decodeFailure(None, "bodyTruncated"@)
    } else if !enabled {
        decodeFailure(None, "protobufDisabled"@)
    } else {
        match firstMatch(matches) {
            None => decodeFailure(None, "protobufRouteNotFound"@),
            Some(at) => {
                let route = routes[at];
                let messageType = sideType(route, side);
                match descriptorsOf(pools, route.schemaId) {
                    None => decodeFailure(Some(messageType), "descriptorUnavailable"@),
                    Some(descriptors) => if !describesMessage(descriptors, messageType) {
                        decodeFailure(Some(messageType), "messageTypeNotFound"@)
                    } else {
                        match payloadOf(contentType, bytes) {
                            Err(error) => decodeFailure(Some(messageType), error),
                            Ok(payload) => decodedPayload(descriptors, messageType, payload),
                        }
                    },
                }
            },
        }
    }
}

fn failedDecoding(messageType: Option<String>, error: &str) -> (result: DecodedProtobufView)
    ensures
        result@ == decodeFailure(optionalView(messageType), error@),
{
    DecodedProtobufView { messageType, json: None, decodeError: Some(copyText(error)) }
}

/// Decodes a body. `matches` holds, for each route, whether its location matches the transaction.
pub fn decodeProtobuf<L>(
    truncated: bool,
    enabled: bool,
    routes: &Vec<ProtobufRoute<L>>,
    matches: &Vec<bool>,
    pools: &Vec<SchemaPool>,
    side: DecodeSide,
    contentType: &str,
    bytes: &Vec<u8>,
) -> (result: DecodedProtobufView)
    requires
        matches.len() == routes.len(),
    ensures
        result@ == decodedBody(
            truncated,
            enabled,
            routeViews(routes@),
            matches@,
            poolViews(pools@),
            side,
            contentType@,
            bytes@,
        ),
{
    if truncated {
        return failedDecoding(None, "bodyTruncated");
    }
    if !enabled {
        return failedDecoding(None, "protobufDisabled");
    }
    let chosen: usize = match selectProtobufRoute(matches) {
        Some(i) => i,
        None => return failedDecoding(None, "protobufRouteNotFound"),
    };
    let route = &routes[chosen];
    assert(routeViews(routes@)[chosen as int] == route@);
    let messageType = match (side, &route.responseMessageType) {
        (DecodeSide::Response, Some(name)) => copyText(name.as_str()),
        _ => copyText(route.messageType.as_str()),
    };
    let at: usize = findPool(pools, route.schemaId.as_str());
    if at >= pools.len() {
        return failedDecoding(Some(messageType), "descriptorUnavailable");
    }
    assert(poolViews(pools@)[at as int].1 == poolSource(pools@[at as int].pool));
    if !knowsMessage(&pools[at].pool, messageType.as_str()) {
        return failedDecoding(Some(messageType), "messageTypeNotFound");
    }
    let payload = match grpcPayload(contentType, bytes) {
        Ok(payload) => payload,
        Err(error) => return failedDecoding(Some(messageType), error),
    };
    match readMessage(&pools[at].pool, messageType.as_str(), payload.as_slice()) {
        None => failedDecoding(Some(messageType), "protobufDecodeFailed"),
        Some(message) => match writeMessage(&message) {
            Some(json) => DecodedProtobufView {
                messageType: Some(messageType),
                json: Some(json),
                decodeError: None,
            },
            None => failedDecoding(Some(messageType), "protobufJsonSerializationFailed"),
        },
    }
}

/// Each side is decoded by the type that the route names for it: a request by the type of the route, a
/// response by the type for responses where the route has one, else by that of the route. The type is told
/// whether or not the decoding succeeds.
pub proof fn lawSideHasItsType<L>(
    routes: Seq<RouteView<L>>,
    matches: Seq<bool>,
    pools: Seq<PoolView>,
    side: DecodeSide,
    contentType: Seq<char>,
    bytes: Seq<u8>,
    at: int,
)
    requires
        0 <= at < matches.len() == routes.len(),
        matches[at],
        forall|k: int| 0 <= k < at ==> !#[trigger] matches[k],
    ensures
        decodedBody(false, true, routes, matches, pools, side, contentType, bytes).0 == Some(
            if side == DecodeSide::Response && routes[at].responseMessageType is Some {
                routes[at].responseMessageType->Some_0
            } else {
                routes[at].messageType
            },
        ),
{
    lawFirstMatchHasPriority(matches);
}

/// What is decoded is the message of that type, by the descriptors of the route's schema, in the payload of
/// the body; each step that fails is told by its own code, the earlier one first.
pub proof fn lawDecodedMessageIsTheRoutes<L>(
    routes: Seq<RouteView<L>>,
    matches: Seq<bool>,
    pools: Seq<PoolView>,
    side: DecodeSide,
    contentType: Seq<char>,
    bytes: Seq<u8>,
    at: int,
    messageType: Seq<char>,
)
    requires
        0 <= at < matches.len() == routes.len(),
        matches[at],
        forall|k: int| 0 <= k < at ==> !#[trigger] matches[k],
        decodedBody(false, true, routes, matches, pools, side, contentType, bytes).0 == Some(
            messageType,
        ),
    ensures
        ({
            let result = decodedBody(
                false,
                true,
                routes,
                matches,
                pools,
                side,
                contentType,
                bytes,
            );
            match descriptorsOf(pools, routes[at].schemaId) {
                None => result.2 == Some("descriptorUnavailable"@),
                Some(descriptors) => {
                    &&& !describesMessage(descriptors, messageType) <==> result.2 == Some(
                        "messageTypeNotFound"@,
                    )
                    &&& describesMessage(descriptors, messageType) ==> match payloadOf(
                        contentType,
                        bytes,
                    ) {
                        Err(error) => result.1 is None && result.2 == Some(error),
                        Ok(payload) => {
                            &&& isMessage(descriptors, messageType, payload) ==> result.1
                                == messageJson(descriptors, messageType, payload)
                            &&& !isMessage(descriptors, messageType, payload) ==> result.2
                                == Some("protobufDecodeFailed"@)
                            &&& isMessage(descriptors, messageType, payload) && result.1 is None
                                ==> result.2 == Some("protobufJsonSerializationFailed"@)
                        },
                    }
                },
            }
        }),
{
    lawFirstMatchHasPriority(matches);
    reveal_strlit("messageTypeNotFound");
    reveal_strlit("protobufDecodeFailed");
    reveal_strlit("protobufJsonSerializationFailed");
    reveal_strlit("grpcFrameTooShort");
    reveal_strlit("grpcCompressionUnsupported");
    reveal_strlit("grpcFrameLengthMismatch");
    assert("grpcFrameTooShort"@.len() == 17);
    assert("grpcCompressionUnsupported"@.len() == 26);
    assert("grpcFrameLengthMismatch"@.len() == 23);
    assert("messageTypeNotFound"@.len() == 19);
    assert("protobufDecodeFailed"@.len() == 20);
    assert("protobufJsonSerializationFailed"@.len() == 31);
}

/// A body that was cut off is never decoded, nor is any while decoding is off, nor one that no route
/// matches; each is told by its own code and names no type.
pub proof fn lawUndecodedBodyNamesNoType<L>(
    truncated: bool,
    enabled: bool,
    routes: Seq<RouteView<L>>,
    matches: Seq<bool>,
    pools: Seq<PoolView>,
    side: DecodeSide,
    contentType: Seq<char>,
    bytes: Seq<u8>,
)
    ensures
        ({
            let result = decodedBody(
                truncated,
                enabled,
                routes,
                matches,
                pools,
                side,
                contentType,
                bytes,
            );
            &&& truncated ==> result == (
                None::<Seq<char>>,
                None::<Seq<char>>,
                Some("bodyTruncated"@),
            )
            &&& !truncated && !enabled ==> result == (
                None::<Seq<char>>,
                None::<Seq<char>>,
                Some("protobufDisabled"@),
            )
            &&& !truncated && enabled && (forall|k: int|
                0 <= k < matches.len() ==> !#[trigger] matches[k]) ==> result == (
                None::<Seq<char>>,
                None::<Seq<char>>,
                Some("protobufRouteNotFound"@),
            )
        }),
{
    lawFirstMatchHasPriority(matches);
}

/// Only the one uncompressed frame of a gRPC body is unwrapped: a body of another type is its own
/// message, and a frame that is too short, compressed or of another length is told as such.
pub proof fn lawOnlyFramesAreUnwrapped(contentType: Seq<char>, bytes: Seq<u8>)
    ensures
        !startsWith(asciiLowered(contentType), "application/grpc"@) ==> payloadOf(
            contentType,
            bytes,
        ) == Ok::<Seq<u8>, Seq<char>>(bytes),
        startsWith(asciiLowered(contentType), "application/grpc"@) ==> {
            &&& bytes.len() < 5 ==> payloadOf(contentType, bytes) == Err::<Seq<u8>, Seq<char>>(
                "grpcFrameTooShort"@,
            )
            &&& bytes.len() >= 5 && bytes[0] != 0 ==> payloadOf(contentType, bytes) == Err::<
                Seq<u8>,
                Seq<char>,
            >("grpcCompressionUnsupported"@)
            &&& bytes.len() >= 5 && bytes[0] == 0 && ((bytes[1] * 256 + bytes[2]) * 256 + bytes[3])
                * 256 + bytes[4] != bytes.len() - 5 ==> payloadOf(contentType, bytes) == Err::<
                Seq<u8>,
                Seq<char>,
            >("grpcFrameLengthMismatch"@)
            &&& bytes.len() >= 5 && bytes[0] == 0 && ((bytes[1] * 256 + bytes[2]) * 256 + bytes[3])
                * 256 + bytes[4] == bytes.len() - 5 ==> payloadOf(contentType, bytes) == Ok::<
                Seq<u8>,
                Seq<char>,
            >(bytes.subrange(5, bytes.len() as int))
        },
{
    if bytes.len() >= 5 {
        assert(bytes.skip(5) == bytes.subrange(5, bytes.len() as int));
        assert(frameLength(bytes) == ((bytes[1] * 256 + bytes[2]) * 256 + bytes[3]) * 256 + bytes[4]);
    }
}

/// A decoding gives a message or an error, never both and never neither.
pub proof fn lawDecodingIsDecided<L>(
    truncated: bool,
    enabled: bool,
    routes: Seq<RouteView<L>>,
    matches: Seq<bool>,
    pools: Seq<PoolView>,
    side: DecodeSide,
    contentType: Seq<char>,
    bytes: Seq<u8>,
)
    ensures
        ({
            let result = decodedBody(
                truncated,
                enabled,
                routes,
                matches,
                pools,
                side,
                contentType,
                bytes,
            );
            result.1 is Some != result.2 is Some && (result.1 is Some ==> result.0 is Some)
        }),
{
}

/// A schema finds the descriptors that were loaded under its identifier, the first of them, and none where
/// nothing was.
pub proof fn lawSchemaFindsItsDescriptors(pools: Seq<PoolView>, id: Seq<char>)
    ensures
        match descriptorsOf(pools, id) {
            Some(descriptors) => exists|k: int|
                0 <= k < pools.len() && (#[trigger] pools[k]).0 == id && pools[k].1 == descriptors
                    && forall|j: int| 0 <= j < k ==> (#[trigger] pools[j]).0 != id,
            None => forall|k: int| 0 <= k < pools.len() ==> (#[trigger] pools[k]).0 != id,
        },
    decreases pools.len(),
{
    lemmaPoolPlace(pools, id);
    if descriptorsOf(pools, id) is Some {
        let k = poolIndex(pools, id);
        assert(pools[k].0 == id);
    }
}

proof fn lemmaPoolPlace(pools: Seq<PoolView>, id: Seq<char>)
    ensures
        0 <= poolIndex(pools, id) <= pools.len(),
        poolIndex(pools, id) < pools.len() ==> pools[poolIndex(pools, id)].0 == id,
        forall|j: int| 0 <= j < poolIndex(pools, id) ==> (#[trigger] pools[j]).0 != id,
    decreases pools.len(),
{
    if pools.len() > 0 && pools[0].0 != id {
        let rest = pools.drop_first();
        lemmaPoolPlace(rest, id);
        assert forall|j: int| 0 <= j < poolIndex(pools, id) implies (#[trigger] pools[j]).0
            != id by {
            if j > 0 {
                assert(rest[j - 1] == pools[j]);
            }
        }
    }
}

/// Routes that were accepted can be decoded by: the descriptors and the type of the one that matches are there
/// for both sides, so that a body fails only for what it holds.
pub proof fn lawAcceptedRoutesDecode<L>(
    routes: Seq<RouteView<L>>,
    locationsValid: Seq<bool>,
    schemas: Seq<SchemaView>,
    pools: Seq<PoolView>,
    matches: Seq<bool>,
    side: DecodeSide,
    bytes: Seq<u8>,
)
    requires
        areUsableRoutes(routes, locationsValid, schemas, pools),
        matches.len() == routes.len(),
        exists|k: int| 0 <= k < matches.len() && matches[k],
    ensures
        ({
            let result = decodedBody(false, true, routes, matches, pools, side, ""@, bytes);
            let error = result.2;
            &&& result.0 is Some
            &&& error is None || error == Some("protobufDecodeFailed"@) || error == Some(
                "protobufJsonSerializationFailed"@,
            )
        }),
{
    lawFirstMatchHasPriority(matches);
    let at = firstMatch(matches)->0;
    assert(isUsableRoute(routes[at], locationsValid[at], schemas, pools));
    reveal_strlit("");
    reveal_strlit("application/grpc");
    assert(asciiLowered(""@).len() == 0);
}

/// Routes are accepted exactly where each has a name of its own, a location that can be matched, a schema that
/// is known and types that its descriptors describe.
pub proof fn lawRoutesAreAcceptedByTheirParts<L>(
    routes: Seq<RouteView<L>>,
    locationsValid: Seq<bool>,
    schemas: Seq<SchemaView>,
    pools: Seq<PoolView>,
    i: int,
    j: int,
)
    requires
        0 <= i < routes.len(),
        0 <= j < routes.len(),
    ensures
        areUsableRoutes(routes, locationsValid, schemas, pools) ==> {
            &&& trimmed(routes[i].id).len() > 0
            &&& locationsValid[i]
            &&& exists|k: int| 0 <= k < schemas.len() && (#[trigger] schemas[k]).id
                == routes[i].schemaId
            &&& descriptorsOf(pools, routes[i].schemaId) matches Some(descriptors) && {
                &&& describesMessage(descriptors, routes[i].messageType)
                &&& routes[i].messageType.len() > 0
                &&& routes[i].responseMessageType matches Some(name) ==> name.len() > 0
                    && describesMessage(descriptors, name)
            }
            &&& i != j ==> routes[i].id != routes[j].id
        },
        areUsableRoutes(Seq::<RouteView<L>>::empty(), Seq::empty(), schemas, pools),
{
    if areUsableRoutes(routes, locationsValid, schemas, pools) {
        assert(isUsableRoute(routes[i], locationsValid[i], schemas, pools));
        if i < j {
            assert(routes[i].id != routes[j].id);
        } else if j < i {
            assert(routes[j].id != routes[i].id);
        }
    }
}

/// A descriptor is admitted exactly where its names and its size keep their bounds, it is a descriptor set and
/// it describes the type that it is uploaded for.
pub proof fn lawDescriptorIsAdmitted(upload: ProtobufDescriptorUpload, bytes: Seq<u8>)
    ensures
        uploadProblem(upload, Some(bytes)) is None <==> trimmed(upload.name@).len() > 0
            && byteLength(upload.name@) <= 256 && trimmed(upload.defaultMessageType@).len() > 0
            && byteLength(upload.defaultMessageType@) <= 512 && byteLength(upload.base64@) <= 32
            * 1024 * 1024 && 0 < bytes.len() <= 16 * 1024 * 1024 && isDescriptorSet(bytes)
            && describesMessage(bytes, upload.defaultMessageType@),
        uploadProblem(upload, None) == Some(ProtocolError::InvalidDescriptor),
        uploadProblem(upload, Some(bytes)) == Some(ProtocolError::InvalidDescriptorMessageType)
            ==> isDescriptorSet(bytes) && !describesMessage(bytes, upload.defaultMessageType@),
        isBoundedUpload(upload) && 0 < bytes.len() <= 16 * 1024 * 1024 && isDescriptorSet(bytes)
            && !describesMessage(bytes, upload.defaultMessageType@) ==> uploadProblem(
            upload,
            Some(bytes),
        ) == Some(ProtocolError::InvalidDescriptorMessageType),
{
}

/// An upload that meets no failure is written, named, stored and published, in this order, and then done.
pub proof fn lawUploadRunsToItsEnd()
    ensures
        nextUploadStep(UploadStep::Write, true) == UploadStep::Rename,
        nextUploadStep(UploadStep::Rename, true) == UploadStep::Persist,
        nextUploadStep(UploadStep::Persist, true) == UploadStep::Publish,
        nextUploadStep(UploadStep::Publish, true) == UploadStep::Done,
{
}

/// Every schema has a file of its own, below the directory of descriptors.
pub proof fn lawSchemasHaveTheirOwnFiles(first: Seq<char>, second: Seq<char>)
    ensures
        descriptorPathOf(first) == descriptorPathOf(second) ==> first == second,
        startsWith(descriptorPathOf(first), "protobufDescriptors/"@),
{
    let head = "protobufDescriptors/"@;
    let tail = ".desc"@;
    assert(descriptorPathOf(first).take(head.len() as int) =~= head);
    if descriptorPathOf(first) == descriptorPathOf(second) {
        assert(descriptorPathOf(first).len() == head.len() + first.len() + tail.len());
        assert(descriptorPathOf(second).len() == head.len() + second.len() + tail.len());
        assert(descriptorPathOf(first).subrange(head.len() as int, (head.len() + first.len()) as int)
            =~= first);
        assert(descriptorPathOf(second).subrange(
            head.len() as int,
            (head.len() + second.len()) as int,
        ) =~= second);
    }
}

} // verus!
