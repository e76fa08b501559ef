//! What the windows of the frontend show: a short-lived record per window, kept alive by heartbeats.

use crate::controlApi::httpControl::{plainError, ApiError, ApiErrorView};
use crate::localization::ErrorCode;
use crate::text::{
    byteLen, byteLength, charsOf, containsControl, copyOptional, copyText, equalText, hasControl,
    isAsciiAlphanumeric, isAsciiAlphanumericChar, optionalView, views,
};
use vstd::prelude::*;

verus! {

pub const maximumUiContexts: usize = 32;

pub const maximumSelectionIds: usize = 64;

pub const maximumIdentifierBytes: usize = 128;

pub const maximumQualifierBytes: usize = 64;

pub const uiContextLifetimeMilliseconds: u64 = 20000;

/// The kinds of windows.
#[derive(Clone, Copy, Debug, PartialEq, Eq, Structural)]
pub enum UiWindowKind {
    Main,
    Floating,
    Independent,
}

/// The pages that a window may show.
#[derive(Clone, Copy, Debug, PartialEq, Eq, Structural)]
pub enum UiPage {
    Overview,
    Connections,
    AccountManagement,
    Settings,
    Plugins,
    Floating,
    Dialog,
}

/// The kinds of things that can be selected.
#[derive(Clone, Copy, Debug, PartialEq, Eq, Structural)]
pub enum UiSelectionKind {
    Transaction,
    StreamPacket,
    Account,
    RuleSet,
}

/// What is selected, by identifiers alone.
#[derive(Debug)]
pub struct UiDataSelection {
    pub kind: UiSelectionKind,
    pub ids: Vec<String>,
    pub side: Option<String>,
    pub sequence: Option<u64>,
}

/// The mathematical value of a selection.
pub struct SelectionView {
    pub kind: UiSelectionKind,
    pub ids: Seq<Seq<char>>,
    pub side: Option<Seq<char>>,
    pub sequence: Option<u64>,
}

impl View for UiDataSelection {
    type V = SelectionView;

    open spec fn view(&self) -> SelectionView {
        SelectionView {
            kind: self.kind,
            ids: views(self.ids@),
            side: optionalView(self.side),
            sequence: self.sequence,
        }
    }
}

/// The value of an optional selection.
pub open spec fn selectionView(selection: Option<UiDataSelection>) -> Option<SelectionView> {
    match selection {
        Some(selection) => Some(selection@),
        None => None,
    }
}

impl UiDataSelection {
    /// An independent copy.
    pub fn copied(&self) -> (result: UiDataSelection)
        ensures
            result@ == self@,
    {
        let ghost all = views(self.ids@);
        let mut ids: Vec<String> = Vec::new();
        let mut i: usize = 0;
        while i < self.ids.len()
            invariant
                i <= self.ids.len(),
                all == views(self.ids@),
                views(ids@) == all.take(i as int),
            decreases self.ids.len() - i,
        {
            let ghost before = ids@;
            ids.push(copyText(self.ids[i].as_str()));
            assert(views(ids@) == views(before).push(all[i as int]));
            i += 1;
            assert(views(ids@) == all.take(i as int));
        }
        assert(all.take(i as int) == all);
        UiDataSelection {
            kind: self.kind,
            ids,
            side: copyOptional(&self.side),
            sequence: self.sequence,
        }
    }
}

/// What one window reports; a greater sequence is a later report.
#[derive(Debug)]
pub struct UiContextUpdate {
    pub instanceId: u128,
    pub sequence: u64,
    pub windowKind: UiWindowKind,
    pub page: UiPage,
    pub section: Option<String>,
    pub view: Option<String>,
    pub selection: Option<UiDataSelection>,
    pub focused: bool,
    pub visible: bool,
}

/// What is known of one window.
#[derive(Debug)]
pub struct UiContext {
    pub instanceId: u128,
    pub sequence: u64,
    pub windowKind: UiWindowKind,
    pub page: UiPage,
    pub section: Option<String>,
    pub view: Option<String>,
    pub selection: Option<UiDataSelection>,
    pub focused: bool,
    pub visible: bool,
    pub updatedAtMilliseconds: u64,
}

/// The mathematical value of what is known of one window.
pub struct ContextView {
    pub instanceId: u128,
    pub sequence: u64,
    pub windowKind: UiWindowKind,
    pub page: UiPage,
    pub section: Option<Seq<char>>,
    pub pageView: Option<Seq<char>>,
    pub selection: Option<SelectionView>,
    pub focused: bool,
    pub visible: bool,
    pub updatedAtMilliseconds: u64,
}

/// The value of what is known of a window.
pub open spec fn contextView(context: UiContext) -> ContextView {
    ContextView {
        instanceId: context.instanceId,
        sequence: context.sequence,
        windowKind: context.windowKind,
        page: context.page,
        section: optionalView(context.section),
        pageView: optionalView(context.view),
        selection: selectionView(context.selection),
        focused: context.focused,
        visible: context.visible,
        updatedAtMilliseconds: context.updatedAtMilliseconds,
    }
}

/// The values of what is known of windows.
pub open spec fn contextViews(contexts: Seq<UiContext>) -> Seq<ContextView> {
    contexts.map_values(|context: UiContext| contextView(context))
}

/// What a report makes known, stamped with the service's own clock.
pub open spec fn reportedContext(update: UiContextUpdate, now: u64) -> ContextView {
    ContextView {
        instanceId: update.instanceId,
        sequence: update.sequence,
        windowKind: update.windowKind,
        page: update.page,
        section: optionalView(update.section),
        pageView: optionalView(update.view),
        selection: selectionView(update.selection),
        focused: update.focused,
        visible: update.visible,
        updatedAtMilliseconds: now,
    }
}

impl UiContext {
    /// What a report makes known.
    pub fn fromUpdate(update: UiContextUpdate, now: u64) -> (result: UiContext)
        ensures
            contextView(result) == reportedContext(update, now),
    {
        UiContext {
            instanceId: update.instanceId,
            sequence: update.sequence,
            windowKind: update.windowKind,
            page: update.page,
            section: update.section,
            view: update.view,
            selection: update.selection,
            focused: update.focused,
            visible: update.visible,
            updatedAtMilliseconds: now,
        }
    }

    /// An independent copy.
    pub fn copied(&self) -> (result: UiContext)
        ensures
            contextView(result) == contextView(*self),
    {
        let selection = match &self.selection {
            Some(selection) => Some(selection.copied()),
            None => None,
        };
        UiContext {
            instanceId: self.instanceId,
            sequence: self.sequence,
            windowKind: self.windowKind,
            page: self.page,
            section: copyOptional(&self.section),
            view: copyOptional(&self.view),
            selection,
            focused: self.focused,
            visible: self.visible,
            updatedAtMilliseconds: self.updatedAtMilliseconds,
        }
    }
}

// ---------------------------------------------------------------------------
// Reports
// ---------------------------------------------------------------------------

/// A short token: letters, digits, hyphens and dots.
pub open spec fn isQualifier(value: Option<Seq<char>>) -> bool {
    value matches Some(text) ==> {
        &&& 0 < byteLength(text) <= maximumQualifierBytes
        &&& forall|i: int|
            0 <= i < text.len() ==> isAsciiAlphanumeric(#[trigger] text[i]) || text[i] == '-'
                || text[i] == '.'
    }
}

/// Whether an optional text is a short token.
pub fn validQualifier(value: &Option<String>) -> (result: bool)
    ensures
        result == isQualifier(optionalView(*value)),
{
    match value {
        None => true,
        Some(text) => {
            let length: usize = byteLen(text.as_str());
            if length == 0 || length > maximumQualifierBytes {
                return false;
            }
            let chars = charsOf(text.as_str());
            let mut i: usize = 0;
            while i < chars.len()
                invariant
                    i <= chars.len(),
                    chars@ == text@,
                    *value == Some(*text),
                    forall|k: int|
                        0 <= k < i ==> isAsciiAlphanumeric(#[trigger] chars@[k]) || chars@[k] == '-'
                            || chars@[k] == '.',
                decreases chars.len() - i,
            {
                let c = chars[i];
                if !(isAsciiAlphanumericChar(c) || c == '-' || c == '.') {
                    assert(text@[i as int] == c);
                    return false;
                }
                i += 1;
            }
            true
        },
    }
}

/// An identifier: not empty, not too long, without control characters.
pub open spec fn isIdentifier(value: Seq<char>) -> bool {
    0 < byteLength(value) <= maximumIdentifierBytes && !hasControl(value)
}

/// Whether a text is an identifier.
pub fn validIdentifier(value: &str) -> (result: bool)
    ensures
        result == isIdentifier(value@),
{
    let length: usize = byteLen(value);
    length > 0 && length <= maximumIdentifierBytes && !containsControl(value)
}

/// Whether a selection keeps its bounds. A packet of a stream is selected alone, with its side and
/// its place.
pub open spec fn isUsableSelection(selection: SelectionView) -> bool {
    &&& 0 < selection.ids.len() <= maximumSelectionIds
    &&& forall|i: int| 0 <= i < selection.ids.len() ==> isIdentifier(#[trigger] selection.ids[i])
    &&& (selection.side matches Some(text) ==> text == "request"@ || text == "response"@)
    &&& (selection.kind == UiSelectionKind::StreamPacket ==> selection.ids.len() == 1
        && selection.side is Some && selection.sequence is Some)
}

/// Whether a report can be used.
pub open spec fn isUsableUpdate(update: UiContextUpdate) -> bool {
    &&& update.sequence > 0
    &&& isQualifier(optionalView(update.section))
    &&& isQualifier(optionalView(update.view))
    &&& (selectionView(update.selection) matches Some(selection) ==> isUsableSelection(selection))
}

/// The error of a report that cannot be used; it tells nothing of the values.
pub open spec fn uiContextError() -> ApiErrorView {
    plainError(400, ErrorCode::InvalidConfigurationRequest)
}

/// The error of a report that cannot be used.
pub fn invalidUiContext() -> (result: ApiError)
    ensures
        result@ == uiContextError(),
{
    ApiError::badRequest(ErrorCode::InvalidConfigurationRequest)
}

fn usableSelection(selection: &UiDataSelection) -> (result: bool)
    ensures
        result == isUsableSelection(selection@),
{
    let ghost all = views(selection.ids@);
    if selection.ids.len() == 0 || selection.ids.len() > maximumSelectionIds {
        return false;
    }
    let mut i: usize = 0;
    while i < selection.ids.len()
        invariant
            i <= selection.ids.len(),
            all == views(selection.ids@),
            forall|k: int| 0 <= k < i ==> isIdentifier(#[trigger] all[k]),
        decreases selection.ids.len() - i,
    {
        assert(all[i as int] == selection.ids@[i as int]@);
        if !validIdentifier(selection.ids[i].as_str()) {
            assert(!isIdentifier(selection@.ids[i as int]));
            return false;
        }
        i += 1;
    }
    match &selection.side {
        Some(text) => {
            if !equalText(text.as_str(), "request") && !equalText(text.as_str(), "response") {
                return false;
            }
        },
        None => {},
    }
    match selection.kind {
        UiSelectionKind::StreamPacket => selection.ids.len() == 1 && selection.side.is_some()
            && selection.sequence.is_some(),
        _ => true,
    }
}

/// Checks a report.
pub fn validateUpdate(update: &UiContextUpdate) -> (result: Result<(), ApiError>)
    ensures
        match result {
            Ok(_) => isUsableUpdate(*update),
            Err(error) => !isUsableUpdate(*update) && error@ == uiContextError(),
        },
{
    if update.sequence == 0 || !validQualifier(&update.section) || !validQualifier(&update.view) {
        return Err(invalidUiContext());
    }
    match &update.selection {
        Some(selection) => if usableSelection(selection) {
            Ok(())
        } else {
            Err(invalidUiContext())
        },
        None => Ok(()),
    }
}

// ---------------------------------------------------------------------------
// The registry
// ---------------------------------------------------------------------------

/// Whether a window is still alive.
pub open spec fn isAlive(context: ContextView, now: u64) -> bool {
    now <= context.updatedAtMilliseconds + uiContextLifetimeMilliseconds
}

/// The windows that are still alive, in order.
pub open spec fn aliveContexts(contexts: Seq<ContextView>, now: u64) -> Seq<ContextView>
    decreases contexts.len(),
{
    if contexts.len() == 0 {
        Seq::empty()
    } else {
        let before = aliveContexts(contexts.drop_last(), now);
        if isAlive(contexts.last(), now) {
            before.push(contexts.last())
        } else {
            before
        }
    }
}

/// The place of a window, or the length where it is not known.
pub open spec fn contextIndex(contexts: Seq<ContextView>, id: u128) -> int
    decreases contexts.len(),
{
    if contexts.len() == 0 || contexts[0].instanceId == id {
        0
    } else {
        1 + contextIndex(contexts.drop_first(), id)
    }
}

/// The place of the window that was heard of longest ago; the first of several.
pub open spec fn stalestContext(contexts: Seq<ContextView>) -> int
    decreases contexts.len(),
{
    if contexts.len() <= 1 {
        0
    } else {
        let before = stalestContext(contexts.drop_last());
        if contexts.last().updatedAtMilliseconds < contexts[before].updatedAtMilliseconds {
            contexts.len() - 1
        } else {
            before
        }
    }
}

/// The windows after a report: dead ones are gone, a report that is not later than the last of its
/// window changes nothing else, and a new window takes the place of the stalest where there are too
/// many.
pub open spec fn updatedContexts(contexts: Seq<ContextView>, context: ContextView, now: u64) -> Seq<
    ContextView,
> {
    let alive = aliveContexts(contexts, now);
    let at = contextIndex(alive, context.instanceId);
    if at < alive.len() {
        if alive[at].sequence >= context.sequence {
            alive
        } else {
            alive.update(at, context)
        }
    } else if alive.len() >= maximumUiContexts {
        alive.remove(stalestContext(alive)).push(context)
    } else {
        alive.push(context)
    }
}

/// Whether one window is more likely to be the one in use: focused before not, visible before not,
/// later before earlier; the identifier decides between equals.
pub open spec fn isMorePresent(left: ContextView, right: ContextView) -> bool {
    if left.focused != right.focused {
        left.focused
    } else if left.visible != right.visible {
        left.visible
    } else if left.updatedAtMilliseconds != right.updatedAtMilliseconds {
        left.updatedAtMilliseconds > right.updatedAtMilliseconds
    } else if left.sequence != right.sequence {
        left.sequence > right.sequence
    } else {
        left.instanceId < right.instanceId
    }
}

fn morePresent(left: &UiContext, right: &UiContext) -> (result: bool)
    ensures
        result == isMorePresent(contextView(*left), contextView(*right)),
{
    if left.focused != right.focused {
        left.focused
    } else if left.visible != right.visible {
        left.visible
    } else if left.updatedAtMilliseconds != right.updatedAtMilliseconds {
        left.updatedAtMilliseconds > right.updatedAtMilliseconds
    } else if left.sequence != right.sequence {
        left.sequence > right.sequence
    } else {
        left.instanceId < right.instanceId
    }
}

/// Puts a window behind those that are more present.
pub open spec fn insertedContext(ordered: Seq<ContextView>, context: ContextView) -> Seq<
    ContextView,
>
    decreases ordered.len(),
{
    if ordered.len() == 0 || !isMorePresent(context, ordered.last()) {
        ordered.push(context)
    } else {
        insertedContext(ordered.drop_last(), context).push(ordered.last())
    }
}

/// The windows, the most present first.
pub open spec fn orderedContexts(contexts: Seq<ContextView>) -> Seq<ContextView>
    decreases contexts.len(),
{
    if contexts.len() == 0 {
        Seq::empty()
    } else {
        insertedContext(orderedContexts(contexts.drop_last()), contexts.last())
    }
}

/// What clients see of the windows: all of them, the most present first, and that one by itself.
#[derive(Debug)]
pub struct UiContextSnapshot {
    pub primary: Option<UiContext>,
    pub contexts: Vec<UiContext>,
}

/// Whether a snapshot shows given windows.
pub open spec fn shows(snapshot: UiContextSnapshot, contexts: Seq<ContextView>) -> bool {
    &&& contextViews(snapshot.contexts@) == orderedContexts(contexts)
    &&& match snapshot.primary {
        Some(primary) => contexts.len() > 0 && contextView(primary) == orderedContexts(contexts)[0],
        None => contexts.len() == 0,
    }
}

/// The windows of the frontend.
#[derive(Debug)]
pub struct UiContextRegistry {
    pub contexts: Vec<UiContext>,
}

impl View for UiContextRegistry {
    type V = Seq<ContextView>;

    open spec fn view(&self) -> Seq<ContextView> {
        contextViews(self.contexts@)
    }
}

impl UiContextRegistry {
    /// No windows.
    pub fn new() -> (result: UiContextRegistry)
        ensures
            result@.len() == 0,
    {
        UiContextRegistry { contexts: Vec::new() }
    }

    fn pruneExpired(&mut self, now: u64)
        ensures
            final(self)@ == aliveContexts(old(self)@, now),
    {
        let ghost all = self@;
        let mut kept: Vec<UiContext> = Vec::new();
        let mut i: usize = 0;
        assert(all.take(0).len() == 0);
        assert(contextViews(kept@) == aliveContexts(all.take(0), now));
        while i < self.contexts.len()
            invariant
                i <= self.contexts.len(),
                all == contextViews(self.contexts@),
                contextViews(kept@) == aliveContexts(all.take(i as int), now),
            decreases self.contexts.len() - i,
        {
            assert(all.take(i + 1).drop_last() == all.take(i as int));
            assert(all.take(i + 1).last() == contextView(self.contexts@[i as int]));
            let stamp: u64 = self.contexts[i].updatedAtMilliseconds;
            let age: u64 = if now > stamp {
                now - stamp
            } else {
                0
            };
            if age <= uiContextLifetimeMilliseconds {
                let ghost before = kept@;
                kept.push(self.contexts[i].copied());
                assert(contextViews(kept@) == contextViews(before).push(all[i as int]));
            }
            i += 1;
        }
        assert(all.take(i as int) == all);
        self.contexts = kept;
    }

    fn find(&self, id: u128) -> (result: usize)
        ensures
            result == contextIndex(self@, id),
            result <= self.contexts@.len(),
    {
        let ghost all = self@;
        let mut i: usize = 0;
        assert(all.skip(0) == all);
        while i < self.contexts.len() && self.contexts[i].instanceId != id
            invariant
                i <= self.contexts.len(),
                all == contextViews(self.contexts@),
                contextIndex(all, id) == i + contextIndex(all.skip(i as int), id),
            decreases self.contexts.len() - i,
        {
            assert(all.skip(i as int)[0] == contextView(self.contexts@[i as int]));
            assert(all.skip(i as int).drop_first() == all.skip(i + 1));
            i += 1;
        }
        if i < self.contexts.len() {
            assert(all.skip(i as int)[0] == contextView(self.contexts@[i as int]));
        }
        i
    }

    fn findStalest(&self) -> (result: usize)
        requires
            self.contexts.len() > 0,
        ensures
            result == stalestContext(self@),
            result < self.contexts@.len(),
    {
        let ghost all = self@;
        let mut best: usize = 0;
        let mut i: usize = 1;
        assert(stalestContext(all.take(1)) == 0);
        while i < self.contexts.len()
            invariant
                1 <= i <= self.contexts.len(),
                best < i,
                all == contextViews(self.contexts@),
                best == stalestContext(all.take(i as int)),
            decreases self.contexts.len() - i,
        {
            assert(all.take(i + 1).drop_last() == all.take(i as int));
            assert(all.take(i + 1).last() == contextView(self.contexts@[i as int]));
            assert(all.take(i + 1)[best as int] == contextView(self.contexts@[best as int]));
            if self.contexts[i].updatedAtMilliseconds < self.contexts[best].updatedAtMilliseconds {
                best = i;
            }
            i += 1;
        }
        assert(all.take(i as int) == all);
        best
    }

    fn buildSnapshot(&self) -> (result: UiContextSnapshot)
        ensures
            shows(result, self@),
    {
        let ghost all = self@;
        let mut ordered: Vec<UiContext> = Vec::new();
        let mut i: usize = 0;
        assert(all.take(0).len() == 0);
        assert(contextViews(ordered@) == orderedContexts(all.take(0)));
        while i < self.contexts.len()
            invariant
                i <= self.contexts.len(),
                all == contextViews(self.contexts@),
                contextViews(ordered@) == orderedContexts(all.take(i as int)),
                ordered@.len() == i,
            decreases self.contexts.len() - i,
        {
            assert(all.take(i + 1).drop_last() == all.take(i as int));
            assert(all.take(i + 1).last() == contextView(self.contexts@[i as int]));
            let ghost before = contextViews(ordered@);
            let ghost added = all[i as int];
            let mut at: usize = ordered.len();
            assert(before.take(at as int) == before);
            assert(insertedContext(before, added) == insertedContext(before.take(at as int), added)
                + before.skip(at as int));
            while at > 0 && morePresent(&self.contexts[i], &ordered[at - 1])
                invariant
                    at <= ordered.len(),
                    i < self.contexts.len(),
                    added == contextView(self.contexts@[i as int]),
                    before == contextViews(ordered@),
                    insertedContext(before, added) == insertedContext(before.take(at as int), added)
                        + before.skip(at as int),
                decreases at,
            {
                let ghost start = before.take(at as int);
                assert(start.last() == contextView(ordered@[at - 1]));
                assert(start.drop_last() == before.take(at - 1));
                assert(insertedContext(start, added) + before.skip(at as int) == insertedContext(
                    before.take(at - 1),
                    added,
                ) + before.skip(at - 1));
                at -= 1;
            }
            assert(insertedContext(before.take(at as int), added) == before.take(at as int).push(
                added,
            )) by {
                if at > 0 {
                    assert(before.take(at as int).last() == contextView(ordered@[at - 1]));
                }
            }
            let copy = self.contexts[i].copied();
            ordered.insert(at, copy);
            assert(contextViews(ordered@) == before.take(at as int).push(added) + before.skip(
                at as int,
            ));
            i += 1;
        }
        assert(all.take(i as int) == all);
        let primary = if ordered.len() > 0 {
            assert(contextViews(ordered@)[0] == contextView(ordered@[0]));
            Some(ordered[0].copied())
        } else {
            None
        };
        UiContextSnapshot { primary, contexts: ordered }
    }

    /// Takes a report.
    pub fn update(&mut self, update: UiContextUpdate, now: u64) -> (result: Result<
        UiContextSnapshot,
        ApiError,
    >)
        ensures
            match result {
                Ok(snapshot) => {
                    &&& isUsableUpdate(update)
                    &&& final(self)@ == updatedContexts(
                        old(self)@,
                        reportedContext(update, now),
                        now,
                    )
                    &&& shows(snapshot, final(self)@)
                },
                Err(error) => !isUsableUpdate(update) && error@ == uiContextError() && final(self)@
                    == old(self)@,
            },
    {
        match validateUpdate(&update) {
            Ok(_) => {},
            Err(error) => return Err(error),
        }
        self.pruneExpired(now);
        let ghost alive = self@;
        let at: usize = self.find(update.instanceId);
        let ghost added = reportedContext(update, now);
        if at < self.contexts.len() {
            assert(alive[at as int] == contextView(self.contexts@[at as int]));
            if self.contexts[at].sequence < update.sequence {
                self.contexts[at] = UiContext::fromUpdate(update, now);
                assert(self@ == alive.update(at as int, added));
            }
        } else {
            if self.contexts.len() >= maximumUiContexts {
                let stalest: usize = self.findStalest();
                let _ = self.contexts.remove(stalest);
                assert(self@ == alive.remove(stalest as int));
            }
            let ghost before = self@;
            self.contexts.push(UiContext::fromUpdate(update, now));
            assert(self@ == before.push(added));
        }
        Ok(self.buildSnapshot())
    }

    /// What clients see now; dead windows are forgotten.
    pub fn snapshot(&mut self, now: u64) -> (result: UiContextSnapshot)
        ensures
            final(self)@ == aliveContexts(old(self)@, now),
            shows(result, final(self)@),
    {
        self.pruneExpired(now);
        self.buildSnapshot()
    }
}

// ---------------------------------------------------------------------------
// Laws
// ---------------------------------------------------------------------------

proof fn lemmaAlive(contexts: Seq<ContextView>, now: u64)
    ensures
        aliveContexts(contexts, now).len() <= contexts.len(),
        forall|i: int|
            0 <= i < aliveContexts(contexts, now).len() ==> isAlive(
                #[trigger] aliveContexts(contexts, now)[i],
                now,
            ),
    decreases contexts.len(),
{
    if contexts.len() > 0 {
        lemmaAlive(contexts.drop_last(), now);
    }
}

proof fn lemmaContextIndex(contexts: Seq<ContextView>, id: u128)
    ensures
        0 <= contextIndex(contexts, id) <= contexts.len(),
        contextIndex(contexts, id) < contexts.len() ==> contexts[contextIndex(
            contexts,
            id,
        )].instanceId == id,
    decreases contexts.len(),
{
    if contexts.len() > 0 && contexts[0].instanceId != id {
        lemmaContextIndex(contexts.drop_first(), id);
    }
}

proof fn lemmaStalest(contexts: Seq<ContextView>)
    requires
        contexts.len() > 0,
    ensures
        0 <= stalestContext(contexts) < contexts.len(),
    decreases contexts.len(),
{
    if contexts.len() > 1 {
        lemmaStalest(contexts.drop_last());
    }
}

/// After a report no more windows are known than the service keeps, all of them are alive, and the
/// window that reported is known with this report or a later one.
pub proof fn lawReportIsRemembered(contexts: Seq<ContextView>, context: ContextView, now: u64)
    requires
        contexts.len() <= maximumUiContexts,
        context.updatedAtMilliseconds == now,
    ensures
        updatedContexts(contexts, context, now).len() <= maximumUiContexts,
        forall|i: int|
            0 <= i < updatedContexts(contexts, context, now).len() ==> isAlive(
                #[trigger] updatedContexts(contexts, context, now)[i],
                now,
            ),
        exists|i: int|
            0 <= i < updatedContexts(contexts, context, now).len() && (
            #[trigger] updatedContexts(contexts, context, now)[i]).instanceId == context.instanceId
                && updatedContexts(contexts, context, now)[i].sequence >= context.sequence,
{
    let alive = aliveContexts(contexts, now);
    let at = contextIndex(alive, context.instanceId);
    let result = updatedContexts(contexts, context, now);
    lemmaAlive(contexts, now);
    lemmaContextIndex(alive, context.instanceId);
    if at < alive.len() {
        assert(result[at].instanceId == context.instanceId);
    } else {
        if alive.len() >= maximumUiContexts {
            lemmaStalest(alive);
            let kept = alive.remove(stalestContext(alive));
            assert forall|i: int| 0 <= i < kept.len() implies isAlive(
                #[trigger] kept[i],
                now,
            ) by {
                if i < stalestContext(alive) {
                    assert(kept[i] == alive[i]);
                } else {
                    assert(kept[i] == alive[i + 1]);
                }
            }
        }
        assert(result[result.len() - 1] == context);
    }
}

/// A report that is not later than the last one of its window changes nothing but forgets the dead.
pub proof fn lawLateReportIsIgnored(contexts: Seq<ContextView>, context: ContextView, now: u64)
    requires
        contextIndex(aliveContexts(contexts, now), context.instanceId) < aliveContexts(
            contexts,
            now,
        ).len(),
        aliveContexts(contexts, now)[contextIndex(
            aliveContexts(contexts, now),
            context.instanceId,
        )].sequence >= context.sequence,
    ensures
        updatedContexts(contexts, context, now) == aliveContexts(contexts, now),
{
}

proof fn lemmaInsertedContext(ordered: Seq<ContextView>, context: ContextView)
    requires
        isOrdered(ordered),
    ensures
        isOrdered(insertedContext(ordered, context)),
        insertedContext(ordered, context).len() == ordered.len() + 1,
        insertedContext(ordered, context).to_multiset() == ordered.to_multiset().insert(context),
        insertedContext(ordered, context).last() == context || (ordered.len() > 0
            && insertedContext(ordered, context).last() == ordered.last()),
    decreases ordered.len(),
{
    broadcast use vstd::seq_lib::group_to_multiset_ensures;

    let result = insertedContext(ordered, context);
    if ordered.len() > 0 && isMorePresent(context, ordered.last()) {
        let before = ordered.drop_last();
        lemmaInsertedContext(before, context);
        let inner = insertedContext(before, context);
        assert(ordered == before.push(ordered.last()));
        assert(inner.to_multiset().insert(ordered.last()) =~= ordered.to_multiset().insert(
            context,
        ));
        assert forall|i: int, j: int| 0 <= i < j < result.len() implies !isMorePresent(
            #[trigger] result[j],
            #[trigger] result[i],
        ) by {
            if j < inner.len() {
                assert(result[i] == inner[i] && result[j] == inner[j]);
            } else {
                assert(result[j] == ordered.last());
                let last = inner.last();
                assert(!isMorePresent(ordered.last(), last)) by {
                    if last == context {
                    } else {
                        assert(last == before.last());
                        assert(before.last() == ordered[ordered.len() - 2]);
                        assert(ordered.last() == ordered[ordered.len() - 1]);
                    }
                }
                if i < inner.len() - 1 {
                    assert(!isMorePresent(inner[inner.len() - 1], inner[i]));
                }
            }
        }
    } else {
        assert forall|i: int, j: int| 0 <= i < j < result.len() implies !isMorePresent(
            #[trigger] result[j],
            #[trigger] result[i],
        ) by {
            if j < ordered.len() {
                assert(result[i] == ordered[i] && result[j] == ordered[j]);
            } else if i < ordered.len() - 1 {
                assert(!isMorePresent(ordered[ordered.len() - 1], ordered[i]));
            }
        }
    }
}

/// Whether no window stands behind one that is less present.
pub open spec fn isOrdered(contexts: Seq<ContextView>) -> bool {
    forall|i: int, j: int|
        0 <= i < j < contexts.len() ==> !isMorePresent(
            #[trigger] contexts[j],
            #[trigger] contexts[i],
        )
}

/// A snapshot shows every window once, and none before one that is more present; so the first is the
/// one in use.
pub proof fn lawSnapshotIsOrdered(contexts: Seq<ContextView>)
    ensures
        isOrdered(orderedContexts(contexts)),
        orderedContexts(contexts).len() == contexts.len(),
        orderedContexts(contexts).to_multiset() == contexts.to_multiset(),
    decreases contexts.len(),
{
    broadcast use vstd::seq_lib::group_to_multiset_ensures;

    if contexts.len() > 0 {
        lawSnapshotIsOrdered(contexts.drop_last());
        lemmaInsertedContext(orderedContexts(contexts.drop_last()), contexts.last());
        assert(contexts == contexts.drop_last().push(contexts.last()));
    }
}

/// A report that says something new is taken as it is, in the place of the one before; the other windows that
/// still report stay, unless a new one needs the room of the one that was silent longest.
pub proof fn lawNewReportIsTaken(
    contexts: Seq<ContextView>,
    context: ContextView,
    now: u64,
    other: ContextView,
)
    ensures
        ({
            let alive = aliveContexts(contexts, now);
            let next = updatedContexts(contexts, context, now);
            let at = contextIndex(alive, context.instanceId);
            &&& at >= alive.len() || alive[at].sequence < context.sequence ==> next.contains(context)
            &&& alive.contains(other) && other.instanceId != context.instanceId && alive.len() < 32
                ==> next.contains(other)
        }),
{
    let alive = aliveContexts(contexts, now);
    let next = updatedContexts(contexts, context, now);
    let at = contextIndex(alive, context.instanceId);
    lemmaContextPlace(alive, context.instanceId);
    if at >= alive.len() || alive[at].sequence < context.sequence {
        if at < alive.len() {
            assert(next[at] == context);
        } else {
            assert(next[next.len() - 1] == context);
        }
    }
    if alive.contains(other) && other.instanceId != context.instanceId && alive.len() < 32 {
        let k = choose|k: int| 0 <= k < alive.len() && alive[k] == other;
        assert(next[k] == other);
    }
}

proof fn lemmaContextPlace(contexts: Seq<ContextView>, id: u128)
    ensures
        0 <= contextIndex(contexts, id) <= contexts.len(),
        contextIndex(contexts, id) < contexts.len() ==> contexts[contextIndex(
            contexts,
            id,
        )].instanceId == id,
    decreases contexts.len(),
{
    if contexts.len() > 0 && contexts[0].instanceId != id {
        lemmaContextPlace(contexts.drop_first(), id);
    }
}

/// A window counts for twenty seconds after its last report, and what still counts is kept whole and in order.
pub proof fn lawSilentWindowsAreForgotten(contexts: Seq<ContextView>, context: ContextView, now: u64)
    ensures
        isAlive(context, now) <==> now <= context.updatedAtMilliseconds + 20_000,
        aliveContexts(contexts.push(context), now) == if now <= context.updatedAtMilliseconds
            + 20_000 {
            aliveContexts(contexts, now).push(context)
        } else {
            aliveContexts(contexts, now)
        },
        aliveContexts(Seq::empty(), now) == Seq::<ContextView>::empty(),
{
    assert(contexts.push(context).drop_last() =~= contexts);
}

/// The window that is shown first is the one that a client looks at: one with the focus before one without,
/// a visible one before a hidden one, then the one that reported last.
pub proof fn lawFocusedWindowComesFirst(contexts: Seq<ContextView>, context: ContextView)
    requires
        contexts.contains(context),
    ensures
        ({
            let first = orderedContexts(contexts)[0];
            &&& context.focused ==> first.focused
            &&& context.focused == first.focused && context.visible ==> first.visible
            &&& context.focused == first.focused && context.visible == first.visible
                ==> first.updatedAtMilliseconds >= context.updatedAtMilliseconds
        }),
{
    lawSnapshotIsOrdered(contexts);
    let ordered = orderedContexts(contexts);
    contexts.to_multiset_ensures();
    ordered.to_multiset_ensures();
    assert(contexts.to_multiset().count(context) > 0);
    assert(ordered.contains(context));
    let k = choose|k: int| 0 <= k < ordered.len() && ordered[k] == context;
    if k > 0 {
        assert(!isMorePresent(ordered[k], ordered[0]));
    }
}

/// A report is taken over exactly as it was sent, with the moment at which it came.
pub proof fn lawReportIsTakenAsSent(update: UiContextUpdate, now: u64)
    ensures
        ({
            let context = reportedContext(update, now);
            &&& context.instanceId == update.instanceId && context.sequence == update.sequence
            &&& context.windowKind == update.windowKind && context.page == update.page
            &&& context.focused == update.focused && context.visible == update.visible
            &&& context.section == optionalView(update.section)
            &&& context.pageView == optionalView(update.view)
            &&& context.selection == selectionView(update.selection)
            &&& context.updatedAtMilliseconds == now
        }),
{
}

/// What a report may hold: a sequence from one on, short qualifiers of letters, digits, hyphens and dots, and a
/// selection of one to sixty-four identifiers; a packet of a stream is chosen alone, with its side and place.
pub proof fn lawReportKeepsItsBounds(update: UiContextUpdate, selection: SelectionView)
    ensures
        update.sequence == 0 ==> !isUsableUpdate(update),
        update.sequence > 0 && update.section is None && update.view is None && update.selection is None
            ==> isUsableUpdate(update),
        isUsableSelection(selection) ==> 1 <= selection.ids.len() <= 64,
        isUsableSelection(selection) && selection.kind == UiSelectionKind::StreamPacket
            ==> selection.ids.len() == 1 && selection.side is Some && selection.sequence is Some,
        1 <= selection.ids.len() <= 64 && selection.kind != UiSelectionKind::StreamPacket
            && selection.side is None && (forall|i: int|
            0 <= i < selection.ids.len() ==> 0 < byteLength(#[trigger] selection.ids[i]) <= 128
                && !hasControl(selection.ids[i])) ==> isUsableSelection(selection),
        selection.side matches Some(text) ==> (isUsableSelection(selection) ==> text == "request"@
            || text == "response"@),
        isUsableUpdate(update) && update.section is Some ==> 0 < byteLength(
            update.section->0@,
        ) <= 64,
{
}

/// A report that is wrong is the client's mistake; what is shown lists every window, the first of them as the one
/// that counts.
pub proof fn lawFirstWindowCounts(snapshot: UiContextSnapshot, contexts: Seq<ContextView>)
    ensures
        uiContextError().status == 400,
        uiContextError().code == ErrorCode::InvalidConfigurationRequest,
        uiContextError().params.len() == 0,
        shows(snapshot, contexts) ==> {
            &&& snapshot.primary is Some <==> contexts.len() > 0
            &&& snapshot.primary is Some ==> contextView(snapshot.primary->0) == orderedContexts(
                contexts,
            )[0]
            &&& snapshot.contexts@.len() == orderedContexts(contexts).len()
        },
{
}

/// A part of the interface is named by letters, digits, hyphens and dots, in at most 64 bytes; something chosen in it
/// by at most 128 bytes without control characters.
pub proof fn lawNamesKeepTheirCharacters(text: Seq<char>, i: int)
    ensures
        isQualifier(None),
        byteLength(text) == 0 || byteLength(text) > 64 ==> !isQualifier(Some(text)),
        0 <= i < text.len() && !('a' <= text[i] <= 'z' || 'A' <= text[i] <= 'Z' || '0' <= text[i] <= '9'
            || text[i] == '-' || text[i] == '.') ==> !isQualifier(Some(text)),
        0 < byteLength(text) <= 64 && (forall|k: int|
            0 <= k < text.len() ==> 'a' <= #[trigger] text[k] <= 'z' || 'A' <= text[k] <= 'Z' || '0'
                <= text[k] <= '9' || text[k] == '-' || text[k] == '.') ==> isQualifier(Some(text)),
        isIdentifier(text) <==> 0 < byteLength(text) <= 128 && forall|k: int|
            0 <= k < text.len() ==> !(#[trigger] text[k] as u32 <= 0x1f || 0x7f <= text[k] as u32 <= 0x9f),
{
    if !isIdentifier(text) && 0 < byteLength(text) <= 128 {
        let k = choose|k: int| 0 <= k < text.len() && crate::text::isControl(#[trigger] text[k]);
        assert(text[k] as u32 <= 0x1f || 0x7f <= text[k] as u32 <= 0x9f);
    }
}

} // verus!
