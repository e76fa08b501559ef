//! The budget that bounds how many recorded bodies slow media responses may keep alive.

use crate::text::{copyText, equalText, views};
use vstd::prelude::*;

verus! {

/// How many media responses may be active at once.
pub const maximumActivePreviewResponses: usize = 16;

/// How many bytes of distinct bodies active responses may keep alive: one gibibyte.
pub const maximumPinnedPreviewBytes: usize = 1_073_741_824;

/// How many body handles active responses may hold.
pub const maximumActivePreviewHandles: usize = 64;

/// A body that active responses keep alive; its bytes count once, however many share it.
#[derive(Debug)]
pub struct PinnedPreviewEntity {
    pub identifier: String,
    pub bytes: usize,
    pub references: usize,
}

/// The mathematical value of a pinned body.
pub struct PinnedEntity {
    pub identifier: Seq<char>,
    pub bytes: nat,
    pub references: nat,
}

impl View for PinnedPreviewEntity {
    type V = PinnedEntity;

    open spec fn view(&self) -> PinnedEntity {
        PinnedEntity {
            identifier: self.identifier@,
            bytes: self.bytes as nat,
            references: self.references as nat,
        }
    }
}

/// The mathematical values of pinned bodies.
pub open spec fn entityViews(entities: Seq<PinnedPreviewEntity>) -> Seq<PinnedEntity> {
    entities.map_values(|entity: PinnedPreviewEntity| entity@)
}

/// How many responses hold a body.
pub open spec fn referencesOf(entities: Seq<PinnedEntity>, identifier: Seq<char>) -> nat
    decreases entities.len(),
{
    if entities.len() == 0 {
        0
    } else if entities[0].identifier == identifier {
        entities[0].references
    } else {
        referencesOf(entities.drop_first(), identifier)
    }
}

/// Whether a body is pinned.
pub open spec fn isPinned(entities: Seq<PinnedEntity>, identifier: Seq<char>) -> bool {
    exists|i: int| 0 <= i < entities.len() && (#[trigger] entities[i]).identifier == identifier
}

/// The bytes of all pinned bodies.
pub open spec fn totalBytes(entities: Seq<PinnedEntity>) -> nat
    decreases entities.len(),
{
    if entities.len() == 0 {
        0
    } else {
        entities[0].bytes + totalBytes(entities.drop_first())
    }
}

/// How often all pinned bodies are held.
pub open spec fn totalReferences(entities: Seq<PinnedEntity>) -> nat
    decreases entities.len(),
{
    if entities.len() == 0 {
        0
    } else {
        entities[0].references + totalReferences(entities.drop_first())
    }
}

/// One more response holds a body.
pub open spec fn pinnedOnce(
    entities: Seq<PinnedEntity>,
    identifier: Seq<char>,
    bytes: nat,
) -> Seq<PinnedEntity>
    decreases entities.len(),
{
    if entities.len() == 0 {
        seq![PinnedEntity { identifier, bytes, references: 1 }]
    } else if entities[0].identifier == identifier {
        seq![PinnedEntity { references: entities[0].references + 1, ..entities[0] }]
            + entities.drop_first()
    } else {
        seq![entities[0]] + pinnedOnce(entities.drop_first(), identifier, bytes)
    }
}

/// One response less holds a body; the last one lets it go.
pub open spec fn unpinnedOnce(entities: Seq<PinnedEntity>, identifier: Seq<char>) -> Seq<
    PinnedEntity,
>
    decreases entities.len(),
{
    if entities.len() == 0 {
        entities
    } else if entities[0].identifier == identifier {
        if entities[0].references <= 1 {
            entities.drop_first()
        } else {
            seq![PinnedEntity { references: (entities[0].references - 1) as nat, ..entities[0] }]
                + entities.drop_first()
        }
    } else {
        seq![entities[0]] + unpinnedOnce(entities.drop_first(), identifier)
    }
}

/// The first size given for each body, in order of first occurrence.
pub open spec fn uniqueEntities(requested: Seq<(Seq<char>, nat)>) -> Seq<(Seq<char>, nat)>
    decreases requested.len(),
{
    if requested.len() == 0 {
        requested
    } else {
        let before = uniqueEntities(requested.drop_last());
        if identifiersOf(before).contains(requested.last().0) {
            before
        } else {
            before.push(requested.last())
        }
    }
}

/// The identifiers of sized bodies.
pub open spec fn identifiersOf(sized: Seq<(Seq<char>, nat)>) -> Seq<Seq<char>> {
    sized.map_values(|entity: (Seq<char>, nat)| entity.0)
}

/// The bytes of those bodies that are not pinned yet.
pub open spec fn additionalBytes(entities: Seq<PinnedEntity>, wanted: Seq<(Seq<char>, nat)>) -> nat
    decreases wanted.len(),
{
    if wanted.len() == 0 {
        0
    } else {
        additionalBytes(entities, wanted.drop_last()) + if isPinned(entities, wanted.last().0) {
            0
        } else {
            wanted.last().1
        }
    }
}

/// Every wanted body pinned once more.
pub open spec fn pinnedAll(entities: Seq<PinnedEntity>, wanted: Seq<(Seq<char>, nat)>) -> Seq<
    PinnedEntity,
>
    decreases wanted.len(),
{
    if wanted.len() == 0 {
        entities
    } else {
        pinnedOnce(pinnedAll(entities, wanted.drop_last()), wanted.last().0, wanted.last().1)
    }
}

/// Every named body unpinned once, the last one first.
pub open spec fn unpinnedAll(entities: Seq<PinnedEntity>, identifiers: Seq<Seq<char>>) -> Seq<
    PinnedEntity,
>
    decreases identifiers.len(),
{
    if identifiers.len() == 0 {
        entities
    } else {
        unpinnedAll(unpinnedOnce(entities, identifiers.last()), identifiers.drop_last())
    }
}

/// How many of the outstanding reservations hold a body.
pub open spec fn holders(outstanding: Seq<Seq<Seq<char>>>, identifier: Seq<char>) -> nat
    decreases outstanding.len(),
{
    if outstanding.len() == 0 {
        0
    } else {
        holders(outstanding.drop_last(), identifier) + if outstanding.last().contains(identifier) {
            1nat
        } else {
            0
        }
    }
}

/// How many handles the outstanding reservations hold.
pub open spec fn handlesOf(outstanding: Seq<Seq<Seq<char>>>) -> nat
    decreases outstanding.len(),
{
    if outstanding.len() == 0 {
        0
    } else {
        handlesOf(outstanding.drop_last()) + outstanding.last().len()
    }
}

/// Each body is listed once and held at least once.
pub open spec fn entitiesValid(entities: Seq<PinnedEntity>) -> bool {
    &&& forall|i: int| 0 <= i < entities.len() ==> (#[trigger] entities[i]).references >= 1
    &&& forall|i: int, j: int|
        0 <= i < j < entities.len() ==> (#[trigger] entities[i]).identifier != (
        #[trigger] entities[j]).identifier
}

/// What active media responses use.
pub struct MediaPreviewLeaseBudget {
    pub activeResponses: usize,
    pub activeHandles: usize,
    pub pinnedBytes: usize,
    pub entities: Vec<PinnedPreviewEntity>,
    pub outstanding: Ghost<Seq<Seq<Seq<char>>>>,
}

/// The share of one media response. It is given back whole, by `release`.
#[derive(Debug)]
pub struct MediaPreviewLeaseReservation {
    pub entityIds: Vec<String>,
    pub handleCount: usize,
}

impl MediaPreviewLeaseReservation {
    /// Whether the handle count is the number of bodies.
    pub open spec fn wf(&self) -> bool {
        self.handleCount == self.entityIds@.len()
    }
}

/// The sized bodies that a caller asks for.
pub open spec fn requestedEntities(requested: Seq<(String, usize)>) -> Seq<(Seq<char>, nat)> {
    requested.map_values(|entity: (String, usize)| (entity.0@, entity.1 as nat))
}

impl MediaPreviewLeaseBudget {
    /// The recorded usage is exactly what the outstanding reservations hold, and within every
    /// limit.
    pub open spec fn wf(&self) -> bool {
        let out = self.outstanding@;
        let entities = entityViews(self.entities@);
        &&& self.activeResponses == out.len()
        &&& self.activeResponses <= maximumActivePreviewResponses
        &&& self.activeHandles == handlesOf(out)
        &&& self.activeHandles <= maximumActivePreviewHandles
        &&& self.pinnedBytes == totalBytes(entities)
        &&& self.pinnedBytes <= maximumPinnedPreviewBytes
        &&& entitiesValid(entities)
        &&& forall|id: Seq<char>| #[trigger] referencesOf(entities, id) == holders(out, id)
        &&& forall|k: int| 0 <= k < out.len() ==> (#[trigger] out[k]).no_duplicates()
    }

    /// Whether the limits leave room for one more response that holds these bodies.
    pub open spec fn admits(&self, wanted: Seq<(Seq<char>, nat)>) -> bool {
        &&& self.activeResponses < maximumActivePreviewResponses
        &&& self.activeHandles + wanted.len() <= maximumActivePreviewHandles
        &&& self.pinnedBytes + additionalBytes(entityViews(self.entities@), wanted)
            <= maximumPinnedPreviewBytes
    }

    /// Whether a reservation is one of the outstanding ones.
    pub open spec fn holds(&self, reservation: &MediaPreviewLeaseReservation) -> bool {
        reservation.wf() && self.outstanding@.contains(views(reservation.entityIds@))
    }
}

// ---------------------------------------------------------------------------
// Facts about pinning
// ---------------------------------------------------------------------------

proof fn lemmaPinnedOnce(entities: Seq<PinnedEntity>, identifier: Seq<char>, bytes: nat)
    requires
        entitiesValid(entities),
    ensures
        entitiesValid(pinnedOnce(entities, identifier, bytes)),
        forall|id: Seq<char>| #[trigger]
            referencesOf(pinnedOnce(entities, identifier, bytes), id) == referencesOf(entities, id)
                + if id == identifier { 1nat } else { 0 },
        totalBytes(pinnedOnce(entities, identifier, bytes)) == totalBytes(entities) + if isPinned(
            entities,
            identifier,
        ) { 0 } else { bytes },
        forall|id: Seq<char>|
            isPinned(pinnedOnce(entities, identifier, bytes), id) <==> isPinned(entities, id) || id
                == identifier,
        unpinnedOnce(pinnedOnce(entities, identifier, bytes), identifier) == entities,
    decreases entities.len(),
{
    let result = pinnedOnce(entities, identifier, bytes);
    if entities.len() == 0 {
        assert(result[0].identifier == identifier);
        assert(result.drop_first() == entities);
        assert(totalBytes(result.drop_first()) == 0);
        assert forall|id: Seq<char>| isPinned(result, id) <==> isPinned(entities, id) || id
            == identifier by {
            if id == identifier {
                assert(result[0].identifier == id);
            }
        }
    } else if entities[0].identifier == identifier {
        assert(result.drop_first() == entities.drop_first());
        assert(result[0].identifier == identifier);
        assert forall|i: int| 0 <= i < result.len() implies (#[trigger] result[i]).references
            >= 1 by {
            if i > 0 {
                assert(result[i] == entities[i]);
            }
        }
        assert forall|i: int, j: int| 0 <= i < j < result.len() implies (
        #[trigger] result[i]).identifier != (#[trigger] result[j]).identifier by {
            assert(result[i].identifier == entities[i].identifier);
            assert(result[j].identifier == entities[j].identifier);
        }
        assert(isPinned(entities, identifier)) by {
            assert(entities[0].identifier == identifier);
        }
        assert forall|id: Seq<char>| isPinned(result, id) <==> isPinned(entities, id) || id
            == identifier by {
            if isPinned(entities, id) {
                let i = choose|i: int|
                    0 <= i < entities.len() && (#[trigger] entities[i]).identifier == id;
                assert(result[i].identifier == id);
            }
            if isPinned(result, id) {
                let i = choose|i: int|
                    0 <= i < result.len() && (#[trigger] result[i]).identifier == id;
                assert(entities[i].identifier == id);
            }
        }
        assert(seq![entities[0]] + entities.drop_first() == entities);
        assert(unpinnedOnce(result, identifier) == entities);
    } else {
        let rest = entities.drop_first();
        let inner = pinnedOnce(rest, identifier, bytes);
        assert(entitiesValid(rest)) by {
            assert forall|i: int| 0 <= i < rest.len() implies (#[trigger] rest[i]).references
                >= 1 by {
                assert(rest[i] == entities[i + 1]);
            }
            assert forall|i: int, j: int| 0 <= i < j < rest.len() implies (
            #[trigger] rest[i]).identifier != (#[trigger] rest[j]).identifier by {
                assert(rest[i] == entities[i + 1] && rest[j] == entities[j + 1]);
            }
        }
        lemmaPinnedOnce(rest, identifier, bytes);
        assert(result.drop_first() == inner);
        assert(result[0] == entities[0]);
        assert forall|id: Seq<char>| #[trigger] isPinned(rest, id) || id
            == entities[0].identifier <==> isPinned(entities, id) by {
            lemmaPinnedSplit(entities, id);
        }
        assert forall|id: Seq<char>| #[trigger] isPinned(inner, id) || id
            == entities[0].identifier <==> isPinned(result, id) by {
            lemmaPinnedSplit(result, id);
        }
        assert forall|id: Seq<char>| isPinned(result, id) <==> isPinned(entities, id) || id
            == identifier by {
            assert(isPinned(inner, id) <==> isPinned(rest, id) || id == identifier);
        }
        assert(isPinned(entities, identifier) == isPinned(rest, identifier));
        assert(!isPinned(rest, entities[0].identifier)) by {
            if isPinned(rest, entities[0].identifier) {
                let i = choose|i: int|
                    0 <= i < rest.len() && (#[trigger] rest[i]).identifier
                        == entities[0].identifier;
                assert(entities[i + 1] == rest[i]);
            }
        }
        assert forall|i: int| 0 <= i < result.len() implies (#[trigger] result[i]).references
            >= 1 by {
            if i > 0 {
                assert(result[i] == inner[i - 1]);
            }
        }
        assert forall|i: int, j: int| 0 <= i < j < result.len() implies (
        #[trigger] result[i]).identifier != (#[trigger] result[j]).identifier by {
            assert(result[j] == inner[j - 1]);
            if i > 0 {
                assert(result[i] == inner[i - 1]);
            } else {
                assert(isPinned(inner, inner[j - 1].identifier));
            }
        }
        assert(seq![entities[0]] + rest == entities);
    }
    assert forall|id: Seq<char>| #[trigger] referencesOf(result, id) == referencesOf(entities, id)
        + if id == identifier { 1nat } else { 0 } by {
        if entities.len() > 0 && entities[0].identifier != identifier {
            let inner = pinnedOnce(entities.drop_first(), identifier, bytes);
            assert(result[0] == entities[0]);
            assert(result.drop_first() == inner);
            assert(referencesOf(inner, id) == referencesOf(entities.drop_first(), id)
                + if id == identifier { 1nat } else { 0 });
        } else if entities.len() == 0 {
            assert(result.drop_first().len() == 0);
            assert(referencesOf(result.drop_first(), id) == 0);
        } else {
            assert(result.drop_first() == entities.drop_first());
        }
    }
}

proof fn lemmaPinnedSplit(entities: Seq<PinnedEntity>, id: Seq<char>)
    requires
        entities.len() > 0,
    ensures
        isPinned(entities, id) <==> isPinned(entities.drop_first(), id) || entities[0].identifier
            == id,
{
    let rest = entities.drop_first();
    if isPinned(rest, id) {
        let i = choose|i: int| 0 <= i < rest.len() && (#[trigger] rest[i]).identifier == id;
        assert(entities[i + 1].identifier == id);
    }
    if isPinned(entities, id) {
        let i = choose|i: int| 0 <= i < entities.len() && (#[trigger] entities[i]).identifier == id;
        if i > 0 {
            assert(rest[i - 1].identifier == id);
        }
    }
    if entities[0].identifier == id {
        assert(entities[0].identifier == id);
    }
}

proof fn lemmaUnpinnedOnce(entities: Seq<PinnedEntity>, identifier: Seq<char>)
    requires
        entitiesValid(entities),
        referencesOf(entities, identifier) >= 1,
    ensures
        entitiesValid(unpinnedOnce(entities, identifier)),
        forall|id: Seq<char>| #[trigger]
            referencesOf(unpinnedOnce(entities, identifier), id) == referencesOf(entities, id)
                - if id == identifier { 1int } else { 0 },
        totalBytes(unpinnedOnce(entities, identifier)) <= totalBytes(entities),
        forall|id: Seq<char>|
            isPinned(unpinnedOnce(entities, identifier), id) ==> isPinned(entities, id),
    decreases entities.len(),
{
    let result = unpinnedOnce(entities, identifier);
    let rest = entities.drop_first();
    assert(entitiesValid(rest)) by {
        assert forall|i: int| 0 <= i < rest.len() implies (#[trigger] rest[i]).references >= 1 by {
            assert(rest[i] == entities[i + 1]);
        }
        assert forall|i: int, j: int| 0 <= i < j < rest.len() implies (
        #[trigger] rest[i]).identifier != (#[trigger] rest[j]).identifier by {
            assert(rest[i] == entities[i + 1] && rest[j] == entities[j + 1]);
        }
    }
    assert(!isPinned(rest, entities[0].identifier)) by {
        if isPinned(rest, entities[0].identifier) {
            let i = choose|i: int|
                0 <= i < rest.len() && (#[trigger] rest[i]).identifier == entities[0].identifier;
            assert(entities[i + 1] == rest[i]);
        }
    }
    assert forall|id: Seq<char>| #[trigger] isPinned(rest, id) || id
        == entities[0].identifier <==> isPinned(entities, id) by {
        lemmaPinnedSplit(entities, id);
    }
    if entities[0].identifier == identifier {
        lemmaUnpinnedHasNone(rest, identifier);
        if entities[0].references <= 1 {
            assert forall|id: Seq<char>| isPinned(result, id) implies isPinned(entities, id) by {
                assert(isPinned(rest, id));
            }
        } else {
            assert(result.drop_first() == rest);
            assert forall|i: int| 0 <= i < result.len() implies (#[trigger] result[i]).references
                >= 1 by {
                if i > 0 {
                    assert(result[i] == entities[i]);
                }
            }
            assert forall|i: int, j: int| 0 <= i < j < result.len() implies (
            #[trigger] result[i]).identifier != (#[trigger] result[j]).identifier by {
                assert(result[i].identifier == entities[i].identifier);
                assert(result[j].identifier == entities[j].identifier);
            }
            assert forall|id: Seq<char>| isPinned(result, id) implies isPinned(entities, id) by {
                lemmaPinnedSplit(result, id);
                assert(isPinned(rest, id) || id == entities[0].identifier);
            }
        }
    } else {
        lemmaUnpinnedOnce(rest, identifier);
        let inner = unpinnedOnce(rest, identifier);
        assert(result.drop_first() == inner);
        assert forall|i: int| 0 <= i < result.len() implies (#[trigger] result[i]).references
            >= 1 by {
            if i > 0 {
                assert(result[i] == inner[i - 1]);
            }
        }
        assert forall|i: int, j: int| 0 <= i < j < result.len() implies (
        #[trigger] result[i]).identifier != (#[trigger] result[j]).identifier by {
            assert(result[j] == inner[j - 1]);
            if i > 0 {
                assert(result[i] == inner[i - 1]);
            } else {
                assert(isPinned(inner, inner[j - 1].identifier));
            }
        }
        assert forall|id: Seq<char>| isPinned(result, id) implies isPinned(entities, id) by {
            lemmaPinnedSplit(result, id);
            if isPinned(inner, id) {
                assert(isPinned(rest, id));
            } else {
                assert(isPinned(rest, id) || id == entities[0].identifier);
            }
        }
    }
    assert forall|id: Seq<char>| #[trigger] referencesOf(result, id) == referencesOf(entities, id)
        - if id == identifier { 1int } else { 0 } by {
        if entities[0].identifier != identifier {
            let inner = unpinnedOnce(rest, identifier);
            assert(result[0] == entities[0]);
            assert(result.drop_first() == inner);
            assert(referencesOf(inner, id) == referencesOf(rest, id)
                - if id == identifier { 1int } else { 0 });
        } else if entities[0].references > 1 {
            assert(result.drop_first() == rest);
        }
    }
}

proof fn lemmaUnpinnedHasNone(entities: Seq<PinnedEntity>, identifier: Seq<char>)
    requires
        !isPinned(entities, identifier),
    ensures
        referencesOf(entities, identifier) == 0,
    decreases entities.len(),
{
    if entities.len() > 0 {
        lemmaPinnedSplit(entities, identifier);
        lemmaUnpinnedHasNone(entities.drop_first(), identifier);
    }
}

proof fn lemmaUnique(requested: Seq<(Seq<char>, nat)>)
    ensures
        identifiersOf(uniqueEntities(requested)).no_duplicates(),
        uniqueEntities(requested).len() <= requested.len(),
    decreases requested.len(),
{
    if requested.len() > 0 {
        lemmaUnique(requested.drop_last());
        let before = uniqueEntities(requested.drop_last());
        let result = uniqueEntities(requested);
        if !identifiersOf(before).contains(requested.last().0) {
            assert(identifiersOf(result) == identifiersOf(before).push(requested.last().0));
        }
    }
}

/// What pinning a list of distinct bodies does to the whole.
proof fn lemmaPinnedAll(entities: Seq<PinnedEntity>, wanted: Seq<(Seq<char>, nat)>)
    requires
        entitiesValid(entities),
        identifiersOf(wanted).no_duplicates(),
    ensures
        entitiesValid(pinnedAll(entities, wanted)),
        forall|id: Seq<char>| #[trigger]
            referencesOf(pinnedAll(entities, wanted), id) == referencesOf(entities, id) + if identifiersOf(
                wanted,
            ).contains(id) { 1nat } else { 0 },
        totalBytes(pinnedAll(entities, wanted)) == totalBytes(entities) + additionalBytes(
            entities,
            wanted,
        ),
        forall|id: Seq<char>|
            isPinned(pinnedAll(entities, wanted), id) <==> isPinned(entities, id)
                || identifiersOf(wanted).contains(id),
    decreases wanted.len(),
{
    if wanted.len() > 0 {
        let before = wanted.drop_last();
        let ids = identifiersOf(wanted);
        assert(identifiersOf(before) == ids.drop_last());
        assert(ids.last() == wanted.last().0);
        assert(ids == ids.drop_last().push(ids.last()));
        assert(identifiersOf(before).no_duplicates()) by {
            assert forall|i: int, j: int|
                0 <= i < ids.len() - 1 && 0 <= j < ids.len() - 1 && i != j implies ids.drop_last()[i]
                != ids.drop_last()[j] by {
                assert(ids[i] != ids[j]);
            }
        }
        lemmaPinnedAll(entities, before);
        let middle = pinnedAll(entities, before);
        lemmaPinnedOnce(middle, wanted.last().0, wanted.last().1);
        assert(!identifiersOf(before).contains(wanted.last().0)) by {
            if identifiersOf(before).contains(wanted.last().0) {
                let k = choose|k: int|
                    0 <= k < identifiersOf(before).len() && identifiersOf(before)[k]
                        == wanted.last().0;
                assert(ids[k] == ids[ids.len() - 1]);
            }
        }
        assert forall|id: Seq<char>| #[trigger] ids.contains(id) <==> identifiersOf(
            before,
        ).contains(id) || id == wanted.last().0 by {
            if ids.contains(id) {
                let k = choose|k: int| 0 <= k < ids.len() && ids[k] == id;
                if k < ids.len() - 1 {
                    assert(identifiersOf(before)[k] == id);
                }
            }
            if identifiersOf(before).contains(id) {
                let k = choose|k: int|
                    0 <= k < identifiersOf(before).len() && identifiersOf(before)[k] == id;
                assert(ids[k] == id);
            }
            if id == wanted.last().0 {
                assert(ids[ids.len() - 1] == id);
            }
        }
        assert(isPinned(middle, wanted.last().0) == isPinned(entities, wanted.last().0));
    } else {
        assert(!identifiersOf(wanted).contains(Seq::<char>::empty()));
    }
}

/// What unpinning a list of distinct held bodies does to the whole.
proof fn lemmaUnpinnedAll(entities: Seq<PinnedEntity>, identifiers: Seq<Seq<char>>)
    requires
        entitiesValid(entities),
        identifiers.no_duplicates(),
        forall|id: Seq<char>| #[trigger]
            identifiers.contains(id) ==> referencesOf(entities, id) >= 1,
    ensures
        entitiesValid(unpinnedAll(entities, identifiers)),
        forall|id: Seq<char>| #[trigger]
            referencesOf(unpinnedAll(entities, identifiers), id) == referencesOf(entities, id)
                - if identifiers.contains(id) { 1int } else { 0 },
        totalBytes(unpinnedAll(entities, identifiers)) <= totalBytes(entities),
    decreases identifiers.len(),
{
    if identifiers.len() > 0 {
        let last = identifiers.last();
        let before = identifiers.drop_last();
        assert(identifiers.contains(last)) by {
            assert(identifiers[identifiers.len() - 1] == last);
        }
        lemmaUnpinnedOnce(entities, last);
        let middle = unpinnedOnce(entities, last);
        assert forall|id: Seq<char>| #[trigger] identifiers.contains(id) <==> before.contains(id)
            || id == last by {
            if identifiers.contains(id) {
                let k = choose|k: int| 0 <= k < identifiers.len() && identifiers[k] == id;
                if k < identifiers.len() - 1 {
                    assert(before[k] == id);
                }
            }
            if before.contains(id) {
                let k = choose|k: int| 0 <= k < before.len() && before[k] == id;
                assert(identifiers[k] == id);
            }
        }
        assert(!before.contains(last)) by {
            if before.contains(last) {
                let k = choose|k: int| 0 <= k < before.len() && before[k] == last;
                assert(identifiers[k] == identifiers[identifiers.len() - 1]);
            }
        }
        assert(before.no_duplicates()) by {
            assert forall|i: int, j: int|
                0 <= i < before.len() && 0 <= j < before.len() && i != j implies before[i]
                != before[j] by {
                assert(identifiers[i] != identifiers[j]);
            }
        }
        assert forall|id: Seq<char>| #[trigger] before.contains(id) implies referencesOf(middle, id)
            >= 1 by {
            assert(identifiers.contains(id));
        }
        lemmaUnpinnedAll(middle, before);
    }
}

proof fn lemmaReferencesOnce(entities: Seq<PinnedEntity>, identifier: Seq<char>)
    requires
        entitiesValid(entities),
        referencesOf(entities, identifier) >= 1,
    ensures
        totalReferences(unpinnedOnce(entities, identifier)) == totalReferences(entities) - 1,
    decreases entities.len(),
{
    if entities.len() > 0 {
        let rest = entities.drop_first();
        let after = unpinnedOnce(entities, identifier);
        assert forall|i: int| 0 <= i < rest.len() implies (#[trigger] rest[i]).references >= 1 by {
            assert(rest[i] == entities[i + 1]);
        }
        assert forall|i: int, j: int| 0 <= i < j < rest.len() implies (#[trigger] rest[i]).identifier
            != (#[trigger] rest[j]).identifier by {
            assert(entities[i + 1].identifier != entities[j + 1].identifier);
        }
        if entities[0].identifier == identifier {
            assert(entities[0].references >= 1);
            if entities[0].references > 1 {
                assert(after.drop_first() == rest);
            }
        } else {
            lemmaReferencesOnce(rest, identifier);
            assert(after.drop_first() == unpinnedOnce(rest, identifier));
        }
    }
}

proof fn lemmaReferencesAll(entities: Seq<PinnedEntity>, identifiers: Seq<Seq<char>>)
    requires
        entitiesValid(entities),
        identifiers.no_duplicates(),
        forall|id: Seq<char>| #[trigger]
            identifiers.contains(id) ==> referencesOf(entities, id) >= 1,
    ensures
        totalReferences(unpinnedAll(entities, identifiers)) == totalReferences(entities)
            - identifiers.len(),
    decreases identifiers.len(),
{
    if identifiers.len() > 0 {
        let last = identifiers.last();
        let before = identifiers.drop_last();
        assert(identifiers.contains(last)) by {
            assert(identifiers[identifiers.len() - 1] == last);
        }
        lemmaUnpinnedOnce(entities, last);
        lemmaReferencesOnce(entities, last);
        let middle = unpinnedOnce(entities, last);
        assert forall|id: Seq<char>| #[trigger] before.contains(id) implies referencesOf(middle, id)
            >= 1 by {
            let k = choose|k: int| 0 <= k < before.len() && before[k] == id;
            assert(identifiers[k] == id);
            assert(identifiers.contains(id));
            assert(identifiers[k] != identifiers[identifiers.len() - 1]);
        }
        assert forall|i: int, j: int|
            0 <= i < before.len() && 0 <= j < before.len() && i != j implies before[i]
            != before[j] by {
            assert(identifiers[i] != identifiers[j]);
        }
        lemmaReferencesAll(middle, before);
    }
}

proof fn lemmaHandlesAreReferences(entities: Seq<PinnedEntity>, outstanding: Seq<Seq<Seq<char>>>)
    requires
        entitiesValid(entities),
        forall|id: Seq<char>| #[trigger] referencesOf(entities, id) == holders(outstanding, id),
        forall|k: int| 0 <= k < outstanding.len() ==> (#[trigger] outstanding[k]).no_duplicates(),
    ensures
        totalReferences(entities) == handlesOf(outstanding),
    decreases outstanding.len(),
{
    if outstanding.len() == 0 {
        if entities.len() > 0 {
            assert(entities[0].references >= 1);
            assert(referencesOf(entities, entities[0].identifier) == 0);
        }
    } else {
        let last = outstanding.last();
        let before = outstanding.drop_last();
        assert(outstanding[outstanding.len() - 1].no_duplicates());
        assert forall|id: Seq<char>| #[trigger] last.contains(id) implies referencesOf(entities, id)
            >= 1 by {
            assert(holders(outstanding, id) >= 1);
        }
        lemmaUnpinnedAll(entities, last);
        lemmaReferencesAll(entities, last);
        let rest = unpinnedAll(entities, last);
        assert forall|id: Seq<char>| #[trigger] referencesOf(rest, id) == holders(before, id) by {
            assert(referencesOf(entities, id) == holders(outstanding, id));
        }
        assert forall|k: int| 0 <= k < before.len() implies (
        #[trigger] before[k]).no_duplicates() by {
            assert(before[k] == outstanding[k]);
        }
        lemmaHandlesAreReferences(rest, before);
    }
}

/// Whatever was reserved and given back, the counters are those of what is held: the bytes of the
/// distinct bodies, one handle for every time that a body is held, one response for every outstanding
/// reservation, each within its limit.
pub proof fn lawUsageIsWhatIsHeld(budget: MediaPreviewLeaseBudget)
    requires
        budget.wf(),
    ensures
        budget.pinnedBytes == totalBytes(entityViews(budget.entities@)),
        budget.pinnedBytes <= maximumPinnedPreviewBytes,
        budget.activeHandles == totalReferences(entityViews(budget.entities@)),
        budget.activeHandles <= maximumActivePreviewHandles,
        budget.activeResponses == budget.outstanding@.len(),
        budget.activeResponses <= maximumActivePreviewResponses,
        forall|i: int| 0 <= i < budget.entities@.len() ==> (#[trigger] budget.entities@[i]).references
            >= 1,
{
    let entities = entityViews(budget.entities@);
    lemmaHandlesAreReferences(entities, budget.outstanding@);
    assert forall|i: int| 0 <= i < budget.entities@.len() implies (
    #[trigger] budget.entities@[i]).references >= 1 by {
        assert(entities[i].references >= 1);
    }
}

/// Reserving a set of bodies and giving them back leaves the pinned bodies exactly as they were.
pub proof fn lawReserveThenReleaseRestores(
    entities: Seq<PinnedEntity>,
    requested: Seq<(Seq<char>, nat)>,
)
    requires
        entitiesValid(entities),
    ensures
        unpinnedAll(
            pinnedAll(entities, uniqueEntities(requested)),
            identifiersOf(uniqueEntities(requested)),
        ) == entities,
{
    lemmaUnique(requested);
    lemmaPinThenUnpin(entities, uniqueEntities(requested));
}

proof fn lemmaPinThenUnpin(entities: Seq<PinnedEntity>, wanted: Seq<(Seq<char>, nat)>)
    requires
        entitiesValid(entities),
        identifiersOf(wanted).no_duplicates(),
    ensures
        unpinnedAll(pinnedAll(entities, wanted), identifiersOf(wanted)) == entities,
    decreases wanted.len(),
{
    if wanted.len() > 0 {
        let before = wanted.drop_last();
        let ids = identifiersOf(wanted);
        assert(identifiersOf(before) == ids.drop_last());
        assert(identifiersOf(before).no_duplicates()) by {
            assert forall|i: int, j: int|
                0 <= i < ids.len() - 1 && 0 <= j < ids.len() - 1 && i != j implies ids.drop_last()[i]
                != ids.drop_last()[j] by {
                assert(ids[i] != ids[j]);
            }
        }
        lemmaPinThenUnpin(entities, before);
        lemmaPinnedAll(entities, before);
        lemmaPinnedOnce(pinnedAll(entities, before), wanted.last().0, wanted.last().1);
        assert(ids.last() == wanted.last().0);
    }
}

proof fn lemmaHoldersRemove(outstanding: Seq<Seq<Seq<char>>>, k: int, id: Seq<char>)
    requires
        0 <= k < outstanding.len(),
    ensures
        holders(outstanding.remove(k), id) == holders(outstanding, id) - if outstanding[k].contains(
            id,
        ) { 1int } else { 0 },
    decreases outstanding.len(),
{
    let last = outstanding.len() - 1;
    if k == last {
        assert(outstanding.remove(k) == outstanding.drop_last());
    } else {
        assert(outstanding.remove(k).drop_last() == outstanding.drop_last().remove(k));
        assert(outstanding.remove(k).last() == outstanding.last());
        lemmaHoldersRemove(outstanding.drop_last(), k, id);
    }
}

proof fn lemmaHandlesRemove(outstanding: Seq<Seq<Seq<char>>>, k: int)
    requires
        0 <= k < outstanding.len(),
    ensures
        handlesOf(outstanding.remove(k)) == handlesOf(outstanding) - outstanding[k].len(),
    decreases outstanding.len(),
{
    let last = outstanding.len() - 1;
    if k == last {
        assert(outstanding.remove(k) == outstanding.drop_last());
    } else {
        assert(outstanding.remove(k).drop_last() == outstanding.drop_last().remove(k));
        assert(outstanding.remove(k).last() == outstanding.last());
        lemmaHandlesRemove(outstanding.drop_last(), k);
    }
}

proof fn lemmaHoldersBound(outstanding: Seq<Seq<Seq<char>>>, id: Seq<char>)
    ensures
        holders(outstanding, id) <= outstanding.len(),
    decreases outstanding.len(),
{
    if outstanding.len() > 0 {
        lemmaHoldersBound(outstanding.drop_last(), id);
    }
}

// ---------------------------------------------------------------------------
// Execution
// ---------------------------------------------------------------------------

fn findEntity(entities: &Vec<PinnedPreviewEntity>, identifier: &str) -> (result: Option<usize>)
    ensures
        match result {
            Some(at) => {
                &&& at < entities@.len()
                &&& entities@[at as int].identifier@ == identifier@
                &&& forall|k: int|
                    0 <= k < at ==> (#[trigger] entities@[k]).identifier@ != identifier@
            },
            None => !isPinned(entityViews(entities@), identifier@),
        },
        result is Some <==> isPinned(entityViews(entities@), identifier@),
{
    let mut i: usize = 0;
    while i < entities.len()
        invariant
            i <= entities.len(),
            forall|k: int| 0 <= k < i ==> (#[trigger] entities@[k]).identifier@ != identifier@,
        decreases entities.len() - i,
    {
        if equalText(entities[i].identifier.as_str(), identifier) {
            assert(entityViews(entities@)[i as int].identifier == identifier@);
            return Some(i);
        }
        i += 1;
    }
    assert(!isPinned(entityViews(entities@), identifier@)) by {
        if isPinned(entityViews(entities@), identifier@) {
            let k = choose|k: int|
                0 <= k < entityViews(entities@).len() && (
                #[trigger] entityViews(entities@)[k]).identifier == identifier@;
            assert(entities@[k].identifier@ == identifier@);
        }
    }
    None
}

proof fn lemmaPinAt(entities: Seq<PinnedEntity>, at: int, identifier: Seq<char>, bytes: nat)
    requires
        0 <= at <= entities.len(),
        at < entities.len() ==> entities[at].identifier == identifier,
        forall|k: int| 0 <= k < at ==> (#[trigger] entities[k]).identifier != identifier,
    ensures
        at < entities.len() ==> {
            &&& referencesOf(entities, identifier) == entities[at].references
            &&& pinnedOnce(entities, identifier, bytes) == entities.update(
                at,
                PinnedEntity { references: entities[at].references + 1, ..entities[at] },
            )
            &&& unpinnedOnce(entities, identifier) == if entities[at].references <= 1 {
                entities.remove(at)
            } else {
                entities.update(
                    at,
                    PinnedEntity {
                        references: (entities[at].references - 1) as nat,
                        ..entities[at]
                    },
                )
            }
            &&& totalBytes(entities.remove(at)) == totalBytes(entities) - entities[at].bytes
            &&& forall|same: PinnedEntity|
                same.bytes == entities[at].bytes ==> #[trigger] totalBytes(
                    entities.update(at, same),
                ) == totalBytes(entities)
        },
        at == entities.len() ==> pinnedOnce(entities, identifier, bytes) == entities.push(
            PinnedEntity { identifier, bytes, references: 1 },
        ),
    decreases entities.len(),
{
    if entities.len() > 0 {
        let rest = entities.drop_first();
        if at == 0 {
            assert(seq![PinnedEntity { references: entities[0].references + 1, ..entities[0] }]
                + rest == entities.update(
                0,
                PinnedEntity { references: entities[0].references + 1, ..entities[0] },
            ));
            assert(entities.remove(0) == rest);
            assert(seq![
                PinnedEntity { references: (entities[0].references - 1) as nat, ..entities[0] },
            ] + rest == entities.update(
                0,
                PinnedEntity { references: (entities[0].references - 1) as nat, ..entities[0] },
            ));
            assert forall|same: PinnedEntity| same.bytes == entities[0].bytes implies #[trigger] totalBytes(
                entities.update(0, same),
            ) == totalBytes(entities) by {
                assert(entities.update(0, same).drop_first() == rest);
            }
        } else {
            assert(entities[0].identifier != identifier);
            assert forall|k: int| 0 <= k < at - 1 implies (#[trigger] rest[k]).identifier
                != identifier by {
                assert(rest[k] == entities[k + 1]);
            }
            lemmaPinAt(rest, at - 1, identifier, bytes);
            if at < entities.len() {
                assert(rest[at - 1] == entities[at]);
                let more = PinnedEntity {
                    references: entities[at].references + 1,
                    ..entities[at]
                };
                let fewer = PinnedEntity {
                    references: (entities[at].references - 1) as nat,
                    ..entities[at]
                };
                assert(seq![entities[0]] + rest.update(at - 1, more) == entities.update(at, more));
                assert(seq![entities[0]] + rest.update(at - 1, fewer) == entities.update(
                    at,
                    fewer,
                ));
                assert(seq![entities[0]] + rest.remove(at - 1) == entities.remove(at));
                assert(entities.remove(at).drop_first() == rest.remove(at - 1));
                assert forall|same: PinnedEntity|
                    same.bytes == entities[at].bytes implies #[trigger] totalBytes(
                    entities.update(at, same),
                ) == totalBytes(entities) by {
                    assert(entities.update(at, same).drop_first() == rest.update(at - 1, same));
                    assert(totalBytes(rest.update(at - 1, same)) == totalBytes(rest));
                }
            } else {
                assert(seq![entities[0]] + rest.push(
                    PinnedEntity { identifier, bytes, references: 1 },
                ) == entities.push(PinnedEntity { identifier, bytes, references: 1 }));
            }
        }
    }
}

fn collectUnique(requested: &Vec<(String, usize)>) -> (result: Vec<(String, usize)>)
    ensures
        requestedEntities(result@) == uniqueEntities(requestedEntities(requested@)),
{
    let mut unique: Vec<(String, usize)> = Vec::new();
    let mut i: usize = 0;
    let ghost all = requestedEntities(requested@);
    assert(requestedEntities(unique@) == uniqueEntities(all.take(0)));
    while i < requested.len()
        invariant
            i <= requested.len(),
            all == requestedEntities(requested@),
            requestedEntities(unique@) == uniqueEntities(all.take(i as int)),
        decreases requested.len() - i,
    {
        assert(all.take(i + 1).drop_last() == all.take(i as int));
        assert(all.take(i + 1).last() == (requested@[i as int].0@, requested@[i as int].1 as nat));
        let ghost before = requestedEntities(unique@);
        let ghost ids = identifiersOf(before);
        let mut known = false;
        let mut j: usize = 0;
        while j < unique.len() && !known
            invariant
                j <= unique.len(),
                i < requested.len(),
                ids == identifiersOf(requestedEntities(unique@)),
                !known ==> forall|k: int| 0 <= k < j ==> ids[k] != requested@[i as int].0@,
                known ==> ids.contains(requested@[i as int].0@),
            decreases unique.len() - j + if known { 0int } else { 1 },
        {
            assert(ids[j as int] == unique@[j as int].0@);
            if equalText(unique[j].0.as_str(), requested[i].0.as_str()) {
                known = true;
            }
            j += 1;
        }
        if !known {
            assert(!ids.contains(requested@[i as int].0@));
            unique.push((copyText(requested[i].0.as_str()), requested[i].1));
            assert(requestedEntities(unique@) == before.push(all[i as int]));
        }
        i += 1;
    }
    assert(all.take(i as int) == all);
    unique
}

/// The additional bytes, or `None` where they exceed the limit on their own.
fn sumAdditional(entities: &Vec<PinnedPreviewEntity>, wanted: &Vec<(String, usize)>) -> (result:
    Option<usize>)
    ensures
        match result {
            Some(total) => total == additionalBytes(
                entityViews(entities@),
                requestedEntities(wanted@),
            ) && total <= maximumPinnedPreviewBytes,
            None => additionalBytes(entityViews(entities@), requestedEntities(wanted@))
                > maximumPinnedPreviewBytes,
        },
{
    let mut total: usize = 0;
    let mut i: usize = 0;
    let ghost all = requestedEntities(wanted@);
    let ghost pinned = entityViews(entities@);
    while i < wanted.len()
        invariant
            i <= wanted.len(),
            all == requestedEntities(wanted@),
            pinned == entityViews(entities@),
            total == additionalBytes(pinned, all.take(i as int)),
            total <= maximumPinnedPreviewBytes,
        decreases wanted.len() - i,
    {
        assert(all.take(i + 1).drop_last() == all.take(i as int));
        if findEntity(entities, wanted[i].0.as_str()).is_none() {
            let bytes = wanted[i].1;
            if bytes > maximumPinnedPreviewBytes - total {
                proof {
                    lemmaAdditionalMonotone(pinned, all, i + 1);
                }
                return None;
            }
            total = total + bytes;
        }
        i += 1;
    }
    assert(all.take(i as int) == all);
    Some(total)
}

proof fn lemmaAdditionalMonotone(
    entities: Seq<PinnedEntity>,
    wanted: Seq<(Seq<char>, nat)>,
    upTo: int,
)
    requires
        0 <= upTo <= wanted.len(),
    ensures
        additionalBytes(entities, wanted.take(upTo)) <= additionalBytes(entities, wanted),
    decreases wanted.len() - upTo,
{
    if upTo < wanted.len() {
        lemmaAdditionalMonotone(entities, wanted, upTo + 1);
        assert(wanted.take(upTo + 1).drop_last() == wanted.take(upTo));
    } else {
        assert(wanted.take(upTo) == wanted);
    }
}

impl MediaPreviewLeaseBudget {
    /// An unused budget.
    pub fn new() -> (result: MediaPreviewLeaseBudget)
        ensures
            result.wf(),
            result.activeResponses == 0,
            result.activeHandles == 0,
            result.pinnedBytes == 0,
            result.entities@.len() == 0,
            result.outstanding@.len() == 0,
    {
        let result = MediaPreviewLeaseBudget {
            activeResponses: 0,
            activeHandles: 0,
            pinnedBytes: 0,
            entities: Vec::new(),
            outstanding: Ghost(Seq::empty()),
        };
        assert(entityViews(result.entities@).len() == 0);
        result
    }

    /// Reserves the share of one response, whole or not at all: each distinct body counts one
    /// handle, and its bytes only where no other response holds it. A body that is named twice
    /// counts by its first size.
    pub fn reserve(&mut self, entities: &Vec<(String, usize)>) -> (result: Option<
        MediaPreviewLeaseReservation,
    >)
        requires
            old(self).wf(),
        ensures
            final(self).wf(),
            result is Some <==> old(self).admits(uniqueEntities(requestedEntities(entities@))),
            match result {
                None => *final(self) == *old(self),
                Some(reservation) => {
                    let wanted = uniqueEntities(requestedEntities(entities@));
                    &&& final(self).holds(&reservation)
                    &&& views(reservation.entityIds@) == identifiersOf(wanted)
                    &&& final(self).outstanding@ == old(self).outstanding@.push(
                        identifiersOf(wanted),
                    )
                    &&& final(self).activeResponses == old(self).activeResponses + 1
                    &&& final(self).activeHandles == old(self).activeHandles + wanted.len()
                    &&& final(self).pinnedBytes == old(self).pinnedBytes + additionalBytes(
                        entityViews(old(self).entities@),
                        wanted,
                    )
                    &&& entityViews(final(self).entities@) == pinnedAll(
                        entityViews(old(self).entities@),
                        wanted,
                    )
                },
            },
    {
        let unique = collectUnique(entities);
        let ghost wanted = requestedEntities(unique@);
        let ghost original = entityViews(self.entities@);
        let ghost out = self.outstanding@;
        proof {
            lemmaUnique(requestedEntities(entities@));
            lemmaPinnedAll(original, wanted);
        }
        let additional = match sumAdditional(&self.entities, &unique) {
            Some(total) => total,
            None => {
                return None;
            },
        };
        if self.activeResponses >= maximumActivePreviewResponses || unique.len()
            > maximumActivePreviewHandles - self.activeHandles || additional
            > maximumPinnedPreviewBytes - self.pinnedBytes {
            return None;
        }
        let mut identifiers: Vec<String> = Vec::new();
        let mut i: usize = 0;
        assert(entityViews(self.entities@) == pinnedAll(original, wanted.take(0)));
        while i < unique.len()
            invariant
                i <= unique.len(),
                wanted == requestedEntities(unique@),
                identifiersOf(wanted).no_duplicates(),
                entitiesValid(original),
                out.len() <= maximumActivePreviewResponses,
                forall|id: Seq<char>| #[trigger] referencesOf(original, id) == holders(out, id),
                entityViews(self.entities@) == pinnedAll(original, wanted.take(i as int)),
                views(identifiers@) == identifiersOf(wanted.take(i as int)),
                self.activeResponses == old(self).activeResponses,
                self.activeHandles == old(self).activeHandles,
                self.pinnedBytes == old(self).pinnedBytes,
                self.outstanding == old(self).outstanding,
            decreases unique.len() - i,
        {
            let ghost current = entityViews(self.entities@);
            let ghost id = unique@[i as int].0@;
            let ghost upTo = wanted.take(i + 1);
            proof {
                assert(upTo.drop_last() == wanted.take(i as int));
                assert(upTo.last() == (id, unique@[i as int].1 as nat));
                assert(identifiersOf(wanted.take(i as int)).no_duplicates()) by {
                    assert forall|a: int, b: int|
                        0 <= a < i && 0 <= b < i && a != b implies identifiersOf(
                        wanted.take(i as int),
                    )[a] != identifiersOf(wanted.take(i as int))[b] by {
                        assert(identifiersOf(wanted)[a] != identifiersOf(wanted)[b]);
                    }
                }
                lemmaPinnedAll(original, wanted.take(i as int));
                lemmaHoldersBound(out, id);
            }
            match findEntity(&self.entities, unique[i].0.as_str()) {
                Some(at) => {
                    proof {
                        assert forall|k: int| 0 <= k < at implies (
                        #[trigger] current[k]).identifier != id by {
                            assert(self.entities@[k].identifier@ != id);
                        }
                        lemmaPinAt(current, at as int, id, unique@[i as int].1 as nat);
                    }
                    let copied = PinnedPreviewEntity {
                        identifier: copyText(self.entities[at].identifier.as_str()),
                        bytes: self.entities[at].bytes,
                        references: self.entities[at].references + 1,
                    };
                    self.entities.set(at, copied);
                    assert(entityViews(self.entities@) == current.update(at as int, copied@));
                },
                None => {
                    proof {
                        assert forall|k: int| 0 <= k < current.len() implies (
                        #[trigger] current[k]).identifier != id by {}
                        lemmaPinAt(
                            current,
                            current.len() as int,
                            id,
                            unique@[i as int].1 as nat,
                        );
                    }
                    let added = PinnedPreviewEntity {
                        identifier: copyText(unique[i].0.as_str()),
                        bytes: unique[i].1,
                        references: 1,
                    };
                    self.entities.push(added);
                    assert(entityViews(self.entities@) == current.push(added@));
                },
            }
            let ghost namesBefore = views(identifiers@);
            identifiers.push(copyText(unique[i].0.as_str()));
            assert(views(identifiers@) == namesBefore.push(id));
            assert(identifiersOf(upTo) == identifiersOf(wanted.take(i as int)).push(id));
            i += 1;
        }
        assert(wanted.take(i as int) == wanted);
        self.activeResponses = self.activeResponses + 1;
        self.activeHandles = self.activeHandles + unique.len();
        self.pinnedBytes = self.pinnedBytes + additional;
        let ghost ids = identifiersOf(wanted);
        self.outstanding = Ghost(out.push(ids));
        proof {
            let after = out.push(ids);
            assert(after.drop_last() == out);
            assert(after.last() == ids);
            assert(after.contains(ids)) by {
                assert(after[after.len() - 1] == ids);
            }
            assert forall|k: int| 0 <= k < after.len() implies (#[trigger] after[k]).no_duplicates() by {
                if k < out.len() {
                    assert(after[k] == out[k]);
                }
            }
        }
        Some(MediaPreviewLeaseReservation { entityIds: identifiers, handleCount: unique.len() })
    }

    /// Gives a reservation back, whole. A body that no other response holds leaves the budget.
    pub fn release(&mut self, reservation: MediaPreviewLeaseReservation)
        requires
            old(self).wf(),
            old(self).holds(&reservation),
        ensures
            final(self).wf(),
            final(self).activeResponses == old(self).activeResponses - 1,
            final(self).activeHandles == old(self).activeHandles - reservation.handleCount,
            entityViews(final(self).entities@) == unpinnedAll(
                entityViews(old(self).entities@),
                views(reservation.entityIds@),
            ),
            exists|k: int|
                0 <= k < old(self).outstanding@.len() && old(self).outstanding@[k] == views(
                    reservation.entityIds@,
                ) && final(self).outstanding@ == #[trigger] old(self).outstanding@.remove(k),
    {
        let ghost out = self.outstanding@;
        let ghost ids = views(reservation.entityIds@);
        let ghost original = entityViews(self.entities@);
        let ghost k = choose|k: int| 0 <= k < out.len() && out[k] == ids;
        proof {
            assert(out[k] == ids);
            lemmaHandlesRemove(out, k);
            assert forall|id: Seq<char>| #[trigger] ids.contains(id) implies referencesOf(
                original,
                id,
            ) >= 1 by {
                lemmaHoldersRemove(out, k, id);
            }
            lemmaUnpinnedAll(original, ids);
        }
        let mut i: usize = reservation.entityIds.len();
        assert(ids.take(i as int) == ids);
        while i > 0
            invariant
                i <= reservation.entityIds.len(),
                ids == views(reservation.entityIds@),
                ids.no_duplicates(),
                entitiesValid(entityViews(self.entities@)),
                forall|id: Seq<char>| #[trigger]
                    ids.take(i as int).contains(id) ==> referencesOf(
                        entityViews(self.entities@),
                        id,
                    ) >= 1,
                unpinnedAll(entityViews(self.entities@), ids.take(i as int)) == unpinnedAll(
                    original,
                    ids,
                ),
                self.pinnedBytes == totalBytes(entityViews(self.entities@)),
                self.pinnedBytes <= maximumPinnedPreviewBytes,
                self.activeResponses == old(self).activeResponses,
                self.activeHandles == old(self).activeHandles,
                self.outstanding == old(self).outstanding,
            decreases i,
        {
            i -= 1;
            let ghost current = entityViews(self.entities@);
            let ghost id = ids[i as int];
            let ghost taken = ids.take(i + 1);
            proof {
                assert(taken.drop_last() == ids.take(i as int));
                assert(taken.last() == id);
                assert(taken[i as int] == id);
                assert(taken.contains(id));
                if !isPinned(current, id) {
                    lemmaUnpinnedHasNone(current, id);
                }
                lemmaUnpinnedOnce(current, id);
            }
            match findEntity(&self.entities, reservation.entityIds[i].as_str()) {
                Some(at) => {
                    proof {
                        assert forall|j: int| 0 <= j < at implies (
                        #[trigger] current[j]).identifier != id by {
                            assert(self.entities@[j].identifier@ != id);
                        }
                        assert(current[at as int].identifier == id);
                        lemmaPinAt(current, at as int, id, 0);
                    }
                    if self.entities[at].references <= 1 {
                        let removed = self.entities.remove(at);
                        assert(entityViews(self.entities@) == current.remove(at as int));
                        self.pinnedBytes = self.pinnedBytes - removed.bytes;
                    } else {
                        let copied = PinnedPreviewEntity {
                            identifier: copyText(self.entities[at].identifier.as_str()),
                            bytes: self.entities[at].bytes,
                            references: self.entities[at].references - 1,
                        };
                        self.entities.set(at, copied);
                        assert(entityViews(self.entities@) == current.update(at as int, copied@));
                    }
                },
                None => {},
            }
            proof {
                assert forall|other: Seq<char>| #[trigger] ids.take(i as int).contains(other) implies referencesOf(
                    entityViews(self.entities@),
                    other,
                ) >= 1 by {
                    let j = choose|j: int| 0 <= j < i && ids.take(i as int)[j] == other;
                    assert(taken[j] == other);
                    assert(taken.contains(other));
                    assert(ids[j] != ids[i as int]);
                }
            }
        }
        self.activeResponses = self.activeResponses - 1;
        self.activeHandles = self.activeHandles - reservation.handleCount;
        self.outstanding = Ghost(out.remove(k));
        proof {
            assert forall|id: Seq<char>| #[trigger] referencesOf(
                entityViews(self.entities@),
                id,
            ) == holders(out.remove(k), id) by {
                lemmaHoldersRemove(out, k, id);
            }
            let after = out.remove(k);
            assert forall|j: int| 0 <= j < after.len() implies (#[trigger] after[j]).no_duplicates() by {
                if j < k {
                    assert(after[j] == out[j]);
                } else {
                    assert(after[j] == out[j + 1]);
                }
            }
        }
    }
}

/// Room is given wherever there is some: below sixteen previews, for up to sixty-four bodies at once and a
/// gibibyte in all. A body that is held already takes no more of it.
pub proof fn lawRoomIsGiven(budget: MediaPreviewLeaseBudget, wanted: Seq<(Seq<char>, nat)>)
    ensures
        budget.admits(wanted) <==> budget.activeResponses < 16 && budget.activeHandles
            + wanted.len() <= 64 && budget.pinnedBytes + additionalBytes(
            entityViews(budget.entities@),
            wanted,
        ) <= 1024 * 1024 * 1024,
{
}

/// What more a request takes are the sizes of the bodies that are not held yet.
pub proof fn lawHeldBodiesTakeNoMore(
    entities: Seq<PinnedEntity>,
    wanted: Seq<(Seq<char>, nat)>,
    identifier: Seq<char>,
    bytes: nat,
)
    ensures
        additionalBytes(entities, Seq::empty()) == 0,
        additionalBytes(entities, wanted.push((identifier, bytes))) == additionalBytes(
            entities,
            wanted,
        ) + if exists|i: int|
            0 <= i < entities.len() && (#[trigger] entities[i]).identifier == identifier {
            0
        } else {
            bytes
        },
{
    assert(wanted.push((identifier, bytes)).drop_last() == wanted);
}

/// Every body that a request names is held once, with the size that was named first.
pub proof fn lawRequestedBodiesAreHeldOnce(requested: Seq<(Seq<char>, nat)>)
    ensures
        identifiersOf(uniqueEntities(requested)).no_duplicates(),
        forall|i: int|
            0 <= i < requested.len() ==> identifiersOf(uniqueEntities(requested)).contains(
                (#[trigger] requested[i]).0,
            ),
        forall|k: int|
            0 <= k < uniqueEntities(requested).len() ==> requested.contains(
                #[trigger] uniqueEntities(requested)[k],
            ),
    decreases requested.len(),
{
    if requested.len() > 0 {
        let shorter = requested.drop_last();
        let before = uniqueEntities(shorter);
        let all = uniqueEntities(requested);
        lawRequestedBodiesAreHeldOnce(shorter);
        let names = identifiersOf(before);
        if !names.contains(requested.last().0) {
            assert(identifiersOf(all) =~= names.push(requested.last().0));
            assert(identifiersOf(all).last() == requested.last().0);
        }
        assert forall|i: int| 0 <= i < requested.len() implies identifiersOf(all).contains(
            (#[trigger] requested[i]).0,
        ) by {
            if i < shorter.len() {
                assert(shorter[i] == requested[i]);
                assert(names.contains(shorter[i].0));
                let k = choose|k: int| 0 <= k < names.len() && names[k] == shorter[i].0;
                assert(identifiersOf(all)[k] == shorter[i].0);
            }
        }
        assert forall|k: int| 0 <= k < all.len() implies requested.contains(#[trigger] all[k]) by {
            if k < before.len() {
                assert(all[k] == before[k]);
                assert(shorter.contains(before[k]));
                let i = choose|i: int| 0 <= i < shorter.len() && shorter[i] == before[k];
                assert(requested[i] == before[k]);
            } else {
                assert(all[k] == requested.last());
            }
        }
    }
}

} // verus!
