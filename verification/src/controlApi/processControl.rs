//! Choosing processes by the paths of their executables. Process numbers live only as long as their
//! process, so paths are what is stored.

use crate::controlApi::configuration::{CaptureView, ProcessCaptureConfiguration};
use crate::controlApi::httpControl::{detailedError, ApiError};
use crate::controlApi::serviceState::ServiceState;
use crate::encoding::{base64Text, encodeBase64};
use crate::localization::ErrorCode;
use crate::network::{Endpoint, IpAddress};
use crate::text::{
    concatText, copyText, copyTexts, equalText, lemmaTextOrderTotal, lemmaTextOrderTransitive,
    lemmaTrimIdempotent, lessText, lowerText, lowered, textLess, trimText, trimmed, views,
};
use vstd::prelude::*;

verus! {

/// A process that runs now and can be chosen.
#[derive(Debug)]
pub struct ProcessCandidate {
    pub processId: u32,
    pub name: String,
    pub executablePath: String,
}

/// The mathematical value of a process.
pub struct ProcessView {
    pub processId: u32,
    pub name: Seq<char>,
    pub executablePath: Seq<char>,
}

impl View for ProcessCandidate {
    type V = ProcessView;

    open spec fn view(&self) -> ProcessView {
        ProcessView {
            processId: self.processId,
            name: self.name@,
            executablePath: self.executablePath@,
        }
    }
}

/// The values of processes.
pub open spec fn processViews(processes: Seq<ProcessCandidate>) -> Seq<ProcessView> {
    processes.map_values(|process: ProcessCandidate| process@)
}

impl ProcessCandidate {
    /// An independent copy.
    pub fn copied(&self) -> (result: ProcessCandidate)
        ensures
            result@ == self@,
    {
        ProcessCandidate {
            processId: self.processId,
            name: copyText(self.name.as_str()),
            executablePath: copyText(self.executablePath.as_str()),
        }
    }
}

// ---------------------------------------------------------------------------
// Keyed texts
// ---------------------------------------------------------------------------

/// A text under a key.
pub type KeyedView = (Seq<char>, Seq<char>);

/// A text under a key.
#[derive(Debug)]
pub struct KeyedText {
    pub key: String,
    pub value: String,
}

/// The values of keyed texts.
pub open spec fn keyedViews(entries: Seq<KeyedText>) -> Seq<KeyedView> {
    entries.map_values(|entry: KeyedText| (entry.key@, entry.value@))
}

/// Whether keys stand in ascending order, each once.
pub open spec fn areKeysAscending(entries: Seq<KeyedView>) -> bool {
    forall|i: int, j: int|
        0 <= i < j < entries.len() ==> textLess(
            (#[trigger] entries[i]).0,
            (#[trigger] entries[j]).0,
        )
}

/// The entries with one more under its key; a key that is there keeps its text.
pub open spec fn keyedInserted(entries: Seq<KeyedView>, key: Seq<char>, value: Seq<char>) -> Seq<
    KeyedView,
>
    decreases entries.len(),
{
    if entries.len() == 0 || textLess(entries.last().0, key) {
        entries.push((key, value))
    } else if entries.last().0 == key {
        entries
    } else {
        keyedInserted(entries.drop_last(), key, value).push(entries.last())
    }
}

fn insertKeyed(entries: &mut Vec<KeyedText>, key: String, value: String)
    ensures
        keyedViews(final(entries)@) == keyedInserted(keyedViews(old(entries)@), key@, value@),
{
    let ghost all = keyedViews(entries@);
    let mut at: usize = entries.len();
    assert(all.take(at as int) == all);
    assert(keyedInserted(all, key@, value@) == keyedInserted(all.take(at as int), key@, value@)
        + all.skip(at as int));
    while at > 0 && lessText(key.as_str(), entries[at - 1].key.as_str())
        invariant
            at <= entries.len(),
            all == keyedViews(entries@),
            keyedInserted(all, key@, value@) == keyedInserted(all.take(at as int), key@, value@)
                + all.skip(at as int),
        decreases at,
    {
        let ghost start = all.take(at as int);
        proof {
            assert(start.last() == (entries@[at - 1].key@, entries@[at - 1].value@));
            lemmaTextOrderTotal(key@, start.last().0);
            assert(start.drop_last() == all.take(at - 1));
            assert(keyedInserted(start, key@, value@) + all.skip(at as int) == keyedInserted(
                all.take(at - 1),
                key@,
                value@,
            ) + all.skip(at - 1));
        }
        at -= 1;
    }
    let ghost start = all.take(at as int);
    if at > 0 && equalText(key.as_str(), entries[at - 1].key.as_str()) {
        proof {
            assert(start.last() == (entries@[at - 1].key@, entries@[at - 1].value@));
            lemmaTextOrderTotal(key@, start.last().0);
            assert(start + all.skip(at as int) == all);
        }
        return;
    }
    proof {
        if at > 0 {
            assert(start.last() == (entries@[at - 1].key@, entries@[at - 1].value@));
            lemmaTextOrderTotal(key@, start.last().0);
        }
    }
    let ghost added = (key@, value@);
    entries.insert(at, KeyedText { key, value });
    assert(keyedViews(entries@) == start.push(added) + all.skip(at as int));
}

proof fn lemmaKeyedInserted(entries: Seq<KeyedView>, key: Seq<char>, value: Seq<char>)
    requires
        areKeysAscending(entries),
    ensures
        areKeysAscending(keyedInserted(entries, key, value)),
        forall|i: int|
            0 <= i < keyedInserted(entries, key, value).len() ==> {
                let entry = #[trigger] keyedInserted(entries, key, value)[i];
                entry == (key, value) || entries.contains(entry)
            },
        forall|entry: KeyedView| #[trigger]
            entries.contains(entry) ==> keyedInserted(entries, key, value).contains(entry),
        exists|i: int|
            0 <= i < keyedInserted(entries, key, value).len() && (#[trigger] keyedInserted(
                entries,
                key,
                value,
            )[i]).0 == key,
        keyedInserted(entries, key, value).len() > 0,
        keyedInserted(entries, key, value).last().0 == key || (entries.len() > 0 && keyedInserted(
            entries,
            key,
            value,
        ).last() == entries.last()),
    decreases entries.len(),
{
    let result = keyedInserted(entries, key, value);
    if entries.len() == 0 || textLess(entries.last().0, key) {
        assert(result[result.len() - 1] == (key, value));
        assert forall|i: int, j: int| 0 <= i < j < result.len() implies textLess(
            (#[trigger] result[i]).0,
            (#[trigger] result[j]).0,
        ) by {
            if j == entries.len() && i < entries.len() - 1 {
                lemmaTextOrderTransitive(entries[i].0, entries.last().0, key);
            }
        }
        assert forall|entry: KeyedView| #[trigger] entries.contains(entry) implies result.contains(
            entry,
        ) by {
            let k = choose|k: int| 0 <= k < entries.len() && entries[k] == entry;
            assert(result[k] == entry);
        }
        assert forall|i: int| 0 <= i < result.len() implies {
            let entry = #[trigger] result[i];
            entry == (key, value) || entries.contains(entry)
        } by {
            if i < entries.len() {
                assert(entries[i] == result[i]);
            }
        }
    } else if entries.last().0 == key {
        assert(result[result.len() - 1].0 == key);
    } else {
        lemmaTextOrderTotal(entries.last().0, key);
        let before = entries.drop_last();
        assert forall|i: int, j: int| 0 <= i < j < before.len() implies textLess(
            (#[trigger] before[i]).0,
            (#[trigger] before[j]).0,
        ) by {
            assert(before[i] == entries[i] && before[j] == entries[j]);
        }
        lemmaKeyedInserted(before, key, value);
        let inner = keyedInserted(before, key, value);
        assert(result == inner.push(entries.last()));
        assert forall|i: int| 0 <= i < inner.len() implies textLess(
            (#[trigger] inner[i]).0,
            entries.last().0,
        ) by {
            if inner[i] != (key, value) {
                assert(before.contains(inner[i]));
                let k = choose|k: int| 0 <= k < before.len() && before[k] == inner[i];
                assert(entries[k] == inner[i]);
                assert(textLess(entries[k].0, entries[entries.len() - 1].0));
            }
        }
        assert forall|i: int, j: int| 0 <= i < j < result.len() implies textLess(
            (#[trigger] result[i]).0,
            (#[trigger] result[j]).0,
        ) by {
            if j < inner.len() {
                assert(result[i] == inner[i] && result[j] == inner[j]);
            } else {
                assert(result[i] == inner[i]);
            }
        }
        assert forall|entry: KeyedView| #[trigger] entries.contains(entry) implies result.contains(
            entry,
        ) by {
            let k = choose|k: int| 0 <= k < entries.len() && entries[k] == entry;
            if k < before.len() {
                assert(before[k] == entry);
                assert(before.contains(entry));
                assert(inner.contains(entry));
                let m = choose|m: int| 0 <= m < inner.len() && inner[m] == entry;
                assert(result[m] == entry);
            } else {
                assert(result[result.len() - 1] == entry);
            }
        }
        assert forall|i: int| 0 <= i < result.len() implies {
            let entry = #[trigger] result[i];
            entry == (key, value) || entries.contains(entry)
        } by {
            if i < inner.len() {
                assert(result[i] == inner[i]);
                if inner[i] != (key, value) {
                    assert(before.contains(inner[i]));
                    let k = choose|k: int| 0 <= k < before.len() && before[k] == inner[i];
                    assert(entries[k] == inner[i]);
                }
            } else {
                assert(entries[entries.len() - 1] == result[i]);
            }
        }
        let k = choose|k: int| 0 <= k < inner.len() && (#[trigger] inner[k]).0 == key;
        assert(result[k].0 == key);
    }
}

// ---------------------------------------------------------------------------
// Selections
// ---------------------------------------------------------------------------

/// What a client asks for: paths, never process numbers.
#[derive(Debug)]
pub struct ProcessSelectionUpdate {
    pub enabled: bool,
    pub selectedPaths: Vec<String>,
}

/// What is stored of a selection.
#[derive(Debug)]
pub struct PersistedProcessSelection {
    pub enabled: bool,
    pub selectedPaths: Vec<String>,
}

/// What clients see of a selection.
#[derive(Debug)]
pub struct ProcessSelectionSnapshot {
    pub enabled: bool,
    pub selectedPaths: Vec<String>,
    pub resolvedProcessIds: Vec<u32>,
    pub processes: Vec<ProcessCandidate>,
    /// The icons of paths, in the order of the paths in lower case.
    pub processIcons: Vec<KeyedText>,
}

/// The paths by their lower-case form, trimmed; of two that differ only in case the first stays, and
/// blank ones are dropped.
pub open spec fn pathEntries(paths: Seq<Seq<char>>) -> Seq<KeyedView>
    decreases paths.len(),
{
    if paths.len() == 0 {
        Seq::empty()
    } else {
        let before = pathEntries(paths.drop_last());
        let path = trimmed(paths.last());
        if path.len() == 0 {
            before
        } else {
            keyedInserted(before, lowered(path), path)
        }
    }
}

/// The texts of entries.
pub open spec fn entryTexts(entries: Seq<KeyedView>) -> Seq<Seq<char>> {
    entries.map_values(|entry: KeyedView| entry.1)
}

/// The paths that are kept, in the order of their lower-case forms.
pub open spec fn normalizedPaths(paths: Seq<Seq<char>>) -> Seq<Seq<char>> {
    entryTexts(pathEntries(paths))
}

/// Brings a selection into the form in which it is stored.
pub fn normalizeSelection(selection: PersistedProcessSelection) -> (result:
    PersistedProcessSelection)
    ensures
        result.enabled == selection.enabled,
        views(result.selectedPaths@) == normalizedPaths(views(selection.selectedPaths@)),
{
    let ghost all = views(selection.selectedPaths@);
    let mut entries: Vec<KeyedText> = Vec::new();
    let mut i: usize = 0;
    assert(all.take(0).len() == 0);
    assert(keyedViews(entries@) == pathEntries(all.take(0)));
    while i < selection.selectedPaths.len()
        invariant
            i <= selection.selectedPaths.len(),
            all == views(selection.selectedPaths@),
            keyedViews(entries@) == pathEntries(all.take(i as int)),
        decreases selection.selectedPaths.len() - i,
    {
        assert(all.take(i + 1).drop_last() == all.take(i as int));
        assert(all.take(i + 1).last() == selection.selectedPaths@[i as int]@);
        let path = trimText(selection.selectedPaths[i].as_str());
        if !path.as_str().is_empty() {
            let key = lowerText(path.as_str());
            insertKeyed(&mut entries, key, path);
        }
        i += 1;
    }
    assert(all.take(i as int) == all);
    let ghost wanted = normalizedPaths(all);
    let mut paths: Vec<String> = Vec::new();
    let mut k: usize = 0;
    while k < entries.len()
        invariant
            k <= entries.len(),
            wanted == entryTexts(keyedViews(entries@)),
            views(paths@) == wanted.take(k as int),
        decreases entries.len() - k,
    {
        let ghost before = paths@;
        paths.push(copyText(entries[k].value.as_str()));
        assert(wanted[k as int] == entries@[k as int].value@);
        assert(views(paths@) == views(before).push(wanted[k as int]));
        k += 1;
        assert(views(paths@) == wanted.take(k as int));
    }
    assert(wanted.take(k as int) == wanted);
    PersistedProcessSelection { enabled: selection.enabled, selectedPaths: paths }
}

/// What holds of the entries of paths.
pub open spec fn arePathEntries(entries: Seq<KeyedView>) -> bool {
    &&& areKeysAscending(entries)
    &&& forall|i: int|
        0 <= i < entries.len() ==> {
            let entry = #[trigger] entries[i];
            entry.1.len() > 0 && trimmed(entry.1) == entry.1 && entry.0 == lowered(entry.1)
        }
}

proof fn lemmaPathEntries(paths: Seq<Seq<char>>)
    ensures
        arePathEntries(pathEntries(paths)),
    decreases paths.len(),
{
    if paths.len() > 0 {
        let before = pathEntries(paths.drop_last());
        lemmaPathEntries(paths.drop_last());
        let path = trimmed(paths.last());
        lemmaTrimIdempotent(paths.last());
        if path.len() > 0 {
            let result = keyedInserted(before, lowered(path), path);
            lemmaKeyedInserted(before, lowered(path), path);
            assert forall|i: int| 0 <= i < result.len() implies {
                let entry = #[trigger] result[i];
                entry.1.len() > 0 && trimmed(entry.1) == entry.1 && entry.0 == lowered(entry.1)
            } by {
                if result[i] != (lowered(path), path) {
                    assert(before.contains(result[i]));
                    let k = choose|k: int| 0 <= k < before.len() && before[k] == result[i];
                    assert(before[k] == result[i]);
                }
            }
        }
    }
}

proof fn lemmaEntriesAgain(entries: Seq<KeyedView>)
    requires
        arePathEntries(entries),
    ensures
        pathEntries(entryTexts(entries)) == entries,
    decreases entries.len(),
{
    let texts = entryTexts(entries);
    if entries.len() > 0 {
        let before = entries.drop_last();
        assert(arePathEntries(before)) by {
            assert forall|i: int| 0 <= i < before.len() implies #[trigger] before[i]
                == entries[i] by {}
        }
        lemmaEntriesAgain(before);
        assert(texts.drop_last() == entryTexts(before));
        let last = entries.last();
        assert(entries[entries.len() - 1] == last);
        assert(texts.last() == last.1);
        if before.len() > 0 {
            assert(before.last() == entries[entries.len() - 2]);
        }
        assert(keyedInserted(before, last.0, last.1) == before.push(last));
        assert(before.push(last) == entries);
    }
}

/// Storing a stored selection again changes nothing, and no path is blank or differs from another
/// only in case.
pub proof fn lawSelectionIsStable(paths: Seq<Seq<char>>)
    ensures
        normalizedPaths(normalizedPaths(paths)) == normalizedPaths(paths),
        forall|i: int|
            0 <= i < normalizedPaths(paths).len() ==> (#[trigger] normalizedPaths(paths)[i]).len()
                > 0,
        forall|i: int, j: int|
            0 <= i < j < normalizedPaths(paths).len() ==> lowered(
                #[trigger] normalizedPaths(paths)[i],
            ) != lowered(#[trigger] normalizedPaths(paths)[j]),
{
    let entries = pathEntries(paths);
    lemmaPathEntries(paths);
    lemmaEntriesAgain(entries);
    assert forall|i: int, j: int| 0 <= i < j < normalizedPaths(paths).len() implies lowered(
        #[trigger] normalizedPaths(paths)[i],
    ) != lowered(#[trigger] normalizedPaths(paths)[j]) by {
        assert(normalizedPaths(paths)[i] == entries[i].1);
        assert(normalizedPaths(paths)[j] == entries[j].1);
        lemmaTextOrderTotal(entries[i].0, entries[j].0);
    }
    assert forall|i: int| 0 <= i < normalizedPaths(paths).len() implies (
    #[trigger] normalizedPaths(paths)[i]).len() > 0 by {
        assert(normalizedPaths(paths)[i] == entries[i].1);
    }
}

/// Why a selection cannot be stored.
pub const emptySelectionMessage: &'static str = "启用进程捕获时至少需要选择一个可执行文件路径";

/// The form in which a selection is stored, or why it cannot be: one that is on needs a path.
pub fn replaceSelection(update: ProcessSelectionUpdate) -> (result: Result<
    PersistedProcessSelection,
    &'static str,
>)
    ensures
        match result {
            Ok(selection) => {
                &&& selection.enabled == update.enabled
                &&& views(selection.selectedPaths@) == normalizedPaths(
                    views(update.selectedPaths@),
                )
                &&& (update.enabled ==> selection.selectedPaths@.len() > 0)
            },
            Err(message) => update.enabled && normalizedPaths(views(update.selectedPaths@)).len()
                == 0 && message@ == emptySelectionMessage@,
        },
{
    let selection = normalizeSelection(
        PersistedProcessSelection { enabled: update.enabled, selectedPaths: update.selectedPaths },
    );
    assert(views(selection.selectedPaths@).len() == selection.selectedPaths@.len());
    if selection.enabled && selection.selectedPaths.len() == 0 {
        return Err(emptySelectionMessage);
    }
    Ok(selection)
}

// ---------------------------------------------------------------------------
// Running processes
// ---------------------------------------------------------------------------

/// Whether one process stands before another: by its name without regard to case, then by number.
pub open spec fn isBefore(left: ProcessView, right: ProcessView) -> bool {
    textLess(lowered(left.name), lowered(right.name)) || (lowered(left.name) == lowered(right.name)
        && left.processId < right.processId)
}

fn before(left: &ProcessCandidate, right: &ProcessCandidate) -> (result: bool)
    ensures
        result == isBefore(left@, right@),
{
    let leftName = lowerText(left.name.as_str());
    let rightName = lowerText(right.name.as_str());
    lessText(leftName.as_str(), rightName.as_str()) || (equalText(
        leftName.as_str(),
        rightName.as_str(),
    ) && left.processId < right.processId)
}

/// Puts a process behind those that stand before it.
pub open spec fn insertedProcess(ordered: Seq<ProcessView>, process: ProcessView) -> Seq<
    ProcessView,
>
    decreases ordered.len(),
{
    if ordered.len() == 0 || !isBefore(process, ordered.last()) {
        ordered.push(process)
    } else {
        insertedProcess(ordered.drop_last(), process).push(ordered.last())
    }
}

/// The processes that have a path, in order.
pub open spec fn orderedProcesses(processes: Seq<ProcessView>) -> Seq<ProcessView>
    decreases processes.len(),
{
    if processes.len() == 0 {
        Seq::empty()
    } else {
        let before = orderedProcesses(processes.drop_last());
        if processes.last().executablePath.len() == 0 {
            before
        } else {
            insertedProcess(before, processes.last())
        }
    }
}

/// Orders the processes that have a path.
pub fn runningProcesses(processes: &Vec<ProcessCandidate>) -> (result: Vec<ProcessCandidate>)
    ensures
        processViews(result@) == orderedProcesses(processViews(processes@)),
{
    let ghost all = processViews(processes@);
    let mut ordered: Vec<ProcessCandidate> = Vec::new();
    let mut i: usize = 0;
    assert(all.take(0).len() == 0);
    assert(processViews(ordered@) == orderedProcesses(all.take(0)));
    while i < processes.len()
        invariant
            i <= processes.len(),
            all == processViews(processes@),
            processViews(ordered@) == orderedProcesses(all.take(i as int)),
        decreases processes.len() - i,
    {
        assert(all.take(i + 1).drop_last() == all.take(i as int));
        assert(all.take(i + 1).last() == processes@[i as int]@);
        if !processes[i].executablePath.as_str().is_empty() {
            let ghost sorted = processViews(ordered@);
            let ghost added = all[i as int];
            let mut at: usize = ordered.len();
            assert(sorted.take(at as int) == sorted);
            assert(insertedProcess(sorted, added) == insertedProcess(sorted.take(at as int), added)
                + sorted.skip(at as int));
            while at > 0 && before(&processes[i], &ordered[at - 1])
                invariant
                    at <= ordered.len(),
                    i < processes.len(),
                    added == processes@[i as int]@,
                    sorted == processViews(ordered@),
                    insertedProcess(sorted, added) == insertedProcess(sorted.take(at as int), added)
                        + sorted.skip(at as int),
                decreases at,
            {
                let ghost start = sorted.take(at as int);
                assert(start.last() == ordered@[at - 1]@);
                assert(start.drop_last() == sorted.take(at - 1));
                assert(insertedProcess(start, added) + sorted.skip(at as int) == insertedProcess(
                    sorted.take(at - 1),
                    added,
                ) + sorted.skip(at - 1));
                at -= 1;
            }
            assert(insertedProcess(sorted.take(at as int), added) == sorted.take(at as int).push(
                added,
            )) by {
                if at > 0 {
                    assert(sorted.take(at as int).last() == ordered@[at - 1]@);
                }
            }
            let copy = processes[i].copied();
            ordered.insert(at, copy);
            assert(processViews(ordered@) == sorted.take(at as int).push(added) + sorted.skip(
                at as int,
            ));
        }
        i += 1;
    }
    assert(all.take(i as int) == all);
    ordered
}

/// Whether a path is chosen, without regard to case.
pub open spec fn isSelected(selected: Seq<Seq<char>>, path: Seq<char>) -> bool {
    exists|i: int| 0 <= i < selected.len() && lowered(#[trigger] selected[i]) == lowered(path)
}

/// Whether a process number belongs to a chosen path.
pub open spec fn isSelectedProcess(
    selected: Seq<Seq<char>>,
    processes: Seq<ProcessView>,
    id: u32,
) -> bool {
    exists|i: int|
        0 <= i < processes.len() && (#[trigger] processes[i]).processId == id && isSelected(
            selected,
            processes[i].executablePath,
        )
}

/// Whether numbers stand in ascending order, each once.
pub open spec fn areAscending(ids: Seq<u32>) -> bool {
    forall|i: int, j: int| 0 <= i < j < ids.len() ==> ids[i] < ids[j]
}

fn selectedPath(selected: &Vec<String>, path: &str) -> (result: bool)
    ensures
        result == isSelected(views(selected@), path@),
{
    let key = lowerText(path);
    let ghost all = views(selected@);
    let mut i: usize = 0;
    while i < selected.len()
        invariant
            i <= selected.len(),
            all == views(selected@),
            key@ == lowered(path@),
            forall|k: int| 0 <= k < i ==> lowered(#[trigger] all[k]) != lowered(path@),
        decreases selected.len() - i,
    {
        assert(all[i as int] == selected@[i as int]@);
        let other = lowerText(selected[i].as_str());
        if equalText(other.as_str(), key.as_str()) {
            return true;
        }
        i += 1;
    }
    false
}

fn insertId(ids: &mut Vec<u32>, id: u32)
    requires
        areAscending(old(ids)@),
    ensures
        areAscending(final(ids)@),
        forall|x: u32| #[trigger]
            final(ids)@.contains(x) <==> x == id || old(ids)@.contains(x),
{
    let ghost all = ids@;
    let mut at: usize = 0;
    while at < ids.len() && ids[at] < id
        invariant
            at <= ids.len(),
            ids@ == all,
            forall|k: int| 0 <= k < at ==> all[k] < id,
        decreases ids.len() - at,
    {
        at += 1;
    }
    if at < ids.len() && ids[at] == id {
        assert(all[at as int] == id);
        return;
    }
    ids.insert(at, id);
    assert(ids@ == all.insert(at as int, id));
    assert forall|x: u32| #[trigger] ids@.contains(x) <==> x == id || all.contains(x) by {
        if ids@.contains(x) {
            let k = choose|k: int| 0 <= k < ids@.len() && ids@[k] == x;
            if k < at {
                assert(all[k] == x);
            } else if k > at {
                assert(all[k - 1] == x);
            }
        }
        if all.contains(x) {
            let k = choose|k: int| 0 <= k < all.len() && all[k] == x;
            if k < at {
                assert(ids@[k] == x);
            } else {
                assert(ids@[k + 1] == x);
            }
        }
        assert(ids@[at as int] == id);
    }
    assert forall|i: int, j: int| 0 <= i < j < ids@.len() implies ids@[i] < ids@[j] by {
        let x = if i < at {
            i
        } else {
            i - 1
        };
        let y = if j < at {
            j
        } else {
            j - 1
        };
        if at < all.len() {
            assert(all[at as int] > id);
        }
        if i != at && j != at {
            assert(all[x] < all[y]);
        } else if j > at && i == at {
            if y > at {
                assert(all[at as int] < all[y]);
            }
        }
    }
}

/// The numbers of the processes that run from chosen paths, ascending.
pub fn resolveSelectedProcessIds(
    selectedPaths: &Vec<String>,
    processes: &Vec<ProcessCandidate>,
) -> (result: Vec<u32>)
    ensures
        areAscending(result@),
        forall|id: u32| #[trigger]
            result@.contains(id) <==> isSelectedProcess(
                views(selectedPaths@),
                processViews(processes@),
                id,
            ),
{
    let ghost chosen = views(selectedPaths@);
    let ghost all = processViews(processes@);
    let mut ids: Vec<u32> = Vec::new();
    let mut i: usize = 0;
    while i < processes.len()
        invariant
            i <= processes.len(),
            chosen == views(selectedPaths@),
            all == processViews(processes@),
            areAscending(ids@),
            forall|id: u32| #[trigger]
                ids@.contains(id) <==> isSelectedProcess(chosen, all.take(i as int), id),
        decreases processes.len() - i,
    {
        let ghost before = ids@;
        let ghost one = all[i as int];
        assert(one == processes@[i as int]@);
        let taken = selectedPath(selectedPaths, processes[i].executablePath.as_str());
        if taken {
            insertId(&mut ids, processes[i].processId);
        }
        proof {
            let now = all.take(i + 1);
            assert forall|id: u32| #[trigger] ids@.contains(id) <==> isSelectedProcess(
                chosen,
                now,
                id,
            ) by {
                if isSelectedProcess(chosen, all.take(i as int), id) {
                    let k = choose|k: int|
                        0 <= k < i && (#[trigger] all.take(i as int)[k]).processId == id
                            && isSelected(chosen, all.take(i as int)[k].executablePath);
                    assert(now[k] == all.take(i as int)[k]);
                }
                if isSelectedProcess(chosen, now, id) {
                    let k = choose|k: int|
                        0 <= k < now.len() && (#[trigger] now[k]).processId == id && isSelected(
                            chosen,
                            now[k].executablePath,
                        );
                    if k < i {
                        assert(all.take(i as int)[k] == now[k]);
                    } else {
                        assert(now[k] == one);
                    }
                }
                assert(now[i as int] == one);
                assert(before.contains(id) <==> isSelectedProcess(chosen, all.take(i as int), id));
            }
        }
        i += 1;
    }
    assert(all.take(i as int) == all);
    ids
}

/// Two ascending lists with the same numbers are the same list.
pub proof fn lawResolutionIsUnique(first: Seq<u32>, second: Seq<u32>)
    requires
        areAscending(first),
        areAscending(second),
        forall|id: u32| #[trigger] first.contains(id) <==> second.contains(id),
    ensures
        first == second,
    decreases first.len(),
{
    if first.len() == 0 {
        if second.len() > 0 {
            assert(second.contains(second[0]));
            assert(first.contains(second[0]));
        }
        assert(first == second);
    } else {
        assert(first.contains(first.last()));
        assert(second.contains(first.last()));
        assert(second.len() > 0);
        assert(second.contains(second.last()));
        assert(first.contains(second.last()));
        let a = choose|a: int| 0 <= a < first.len() && first[a] == second.last();
        let b = choose|b: int| 0 <= b < second.len() && second[b] == first.last();
        assert(second.last() <= first.last()) by {
            if a < first.len() - 1 {
                assert(first[a] < first[first.len() - 1]);
            }
        }
        assert(first.last() <= second.last()) by {
            if b < second.len() - 1 {
                assert(second[b] < second[second.len() - 1]);
            }
        }
        let one = first.drop_last();
        let two = second.drop_last();
        assert forall|id: u32| #[trigger] one.contains(id) <==> two.contains(id) by {
            assert(first.contains(id) == second.contains(id));
            if one.contains(id) {
                let k = choose|k: int| 0 <= k < one.len() && one[k] == id;
                assert(first[k] == id && first[k] < first[first.len() - 1]);
                assert(first.contains(id));
                let m = choose|m: int| 0 <= m < second.len() && second[m] == id;
                assert(two[m] == id);
            }
            if two.contains(id) {
                let k = choose|k: int| 0 <= k < two.len() && two[k] == id;
                assert(second[k] == id && second[k] < second[second.len() - 1]);
                assert(second.contains(id));
                let m = choose|m: int| 0 <= m < first.len() && first[m] == id;
                assert(one[m] == id);
            }
        }
        lawResolutionIsUnique(one, two);
        assert(first == one.push(first.last()));
        assert(second == two.push(second.last()));
    }
}

/// Whether a configuration is what the capture is told for a selection, led to an entry. While it is
/// off no numbers are resolved.
pub open spec fn isCaptureFor(
    capture: CaptureView,
    selection: PersistedProcessSelection,
    processes: Seq<ProcessView>,
    entry: Endpoint,
) -> bool {
    &&& capture.enabled == selection.enabled
    &&& capture.proxyAddress == entry.address
    &&& capture.proxyPort == entry.port
    &&& areAscending(capture.processIds)
    &&& forall|id: u32| #[trigger]
        capture.processIds.contains(id) <==> selection.enabled && isSelectedProcess(
            views(selection.selectedPaths@),
            processes,
            id,
        )
}

/// What the capture is told for a selection while nothing runs that it could be led to: `idle` and the
/// port of the proxy.
pub fn runtimeConfigurationForSelection(
    selection: &PersistedProcessSelection,
    processes: &Vec<ProcessCandidate>,
    proxyPort: u16,
    idle: IpAddress,
) -> (result: ProcessCaptureConfiguration)
    ensures
        isCaptureFor(
            result@,
            *selection,
            processViews(processes@),
            Endpoint { address: idle, port: proxyPort },
        ),
{
    let processIds = if selection.enabled {
        resolveSelectedProcessIds(&selection.selectedPaths, processes)
    } else {
        Vec::new()
    };
    ProcessCaptureConfiguration {
        enabled: selection.enabled,
        processIds,
        proxyPort,
        proxyAddress: idle,
    }
}

/// Where the capture leads: to the inner entry of a service that runs, else to where the proxy will
/// listen.
pub open spec fn captureEntry(
    service: ServiceState,
    listenPort: u16,
    idle: IpAddress,
    entry: Option<Endpoint>,
) -> Endpoint {
    if service == ServiceState::Running {
        entry->Some_0
    } else {
        Endpoint { address: idle, port: listenPort }
    }
}

/// What the capture is told for a selection. A service that runs keeps an inner entry, and the capture
/// is led there, never to the port that clients connect to.
pub fn captureForSelection(
    selection: &PersistedProcessSelection,
    processes: &Vec<ProcessCandidate>,
    service: ServiceState,
    listenPort: u16,
    idle: IpAddress,
    entry: Option<Endpoint>,
) -> (result: ProcessCaptureConfiguration)
    requires
        service == ServiceState::Running ==> entry is Some,
    ensures
        isCaptureFor(
            result@,
            *selection,
            processViews(processes@),
            captureEntry(service, listenPort, idle, entry),
        ),
        service == ServiceState::Running ==> result.proxyAddress == entry->Some_0.address
            && result.proxyPort == entry->Some_0.port,
        service != ServiceState::Running ==> result.proxyAddress == idle && result.proxyPort
            == listenPort,
{
    let mut capture = runtimeConfigurationForSelection(selection, processes, listenPort, idle);
    if service == ServiceState::Running {
        match entry {
            Some(inner) => {
                capture.proxyAddress = inner.address;
                capture.proxyPort = inner.port;
            },
            None => {},
        }
    }
    capture
}

/// What is done to the capture when a selection changes.
#[derive(Clone, Copy, Debug, PartialEq, Eq, Structural)]
pub enum CaptureOperation {
    /// Tell the running capture the new numbers.
    UpdateProcessIds,
    /// Start it.
    Start,
    /// Stop it.
    Stop,
    /// Leave it alone.
    Keep,
}

/// What is done to a running capture.
pub open spec fn operationFor(enabledNow: bool, enabledNext: bool) -> CaptureOperation {
    if enabledNow && enabledNext {
        CaptureOperation::UpdateProcessIds
    } else if enabledNext {
        CaptureOperation::Start
    } else if enabledNow {
        CaptureOperation::Stop
    } else {
        CaptureOperation::Keep
    }
}

/// Decides what is done to a running capture.
pub fn captureOperation(enabledNow: bool, enabledNext: bool) -> (result: CaptureOperation)
    ensures
        result == operationFor(enabledNow, enabledNext),
{
    if enabledNow && enabledNext {
        CaptureOperation::UpdateProcessIds
    } else if enabledNext {
        CaptureOperation::Start
    } else if enabledNow {
        CaptureOperation::Stop
    } else {
        CaptureOperation::Keep
    }
}

/// What is done next to replace a selection.
#[derive(Clone, Copy, Debug, PartialEq, Eq, Structural)]
pub enum SelectionStep {
    /// Store the selection.
    Store,
    /// Bring the running capture up to date.
    Apply(CaptureOperation),
    /// Put the selection into effect and publish it.
    Commit,
    PublishRuntimeViews,
    Done,
    /// The selection was not put into effect.
    Refused,
}

/// What a running capture is ordered to do.
#[derive(Debug)]
pub enum CaptureOrder<'a> {
    UpdateProcessIds(&'a Vec<u32>),
    Start(&'a ProcessCaptureConfiguration),
    Stop,
    Keep,
}

/// What a running capture is ordered to do in the current step of a replacement: it is started with
/// exactly what comes into force afterwards.
pub open spec fn orderOf(change: &SelectionChange) -> Option<CaptureOrder<'_>> {
    match change.step {
        SelectionStep::Apply(operation) => Some(
            match operation {
                CaptureOperation::UpdateProcessIds => CaptureOrder::UpdateProcessIds(
                    &change.target.processIds,
                ),
                CaptureOperation::Start => CaptureOrder::Start(&change.target),
                CaptureOperation::Stop => CaptureOrder::Stop,
                CaptureOperation::Keep => CaptureOrder::Keep,
            },
        ),
        _ => None,
    }
}

fn copyIds(ids: &Vec<u32>) -> (result: Vec<u32>)
    ensures
        result@ == ids@,
{
    let mut result: Vec<u32> = Vec::new();
    let mut i: usize = 0;
    while i < ids.len()
        invariant
            i <= ids.len(),
            result@ == ids@.take(i as int),
        decreases ids.len() - i,
    {
        result.push(ids[i]);
        i += 1;
        assert(result@ == ids@.take(i as int));
    }
    assert(ids@.take(i as int) == ids@);
    result
}

/// The replacement of a selection under way.
#[derive(Debug)]
pub struct SelectionChange {
    /// Whether the service runs.
    pub running: bool,
    pub operation: CaptureOperation,
    /// What the capture is told.
    pub target: ProcessCaptureConfiguration,
    pub step: SelectionStep,
    /// Why the selection was not put into effect.
    pub failure: Option<String>,
}

/// What a step leads to. The capture is touched only while the service runs.
pub open spec fn nextSelection(change: SelectionChange, failure: Option<String>) -> SelectionChange {
    match (change.step, failure) {
        (SelectionStep::Store, Some(_)) | (SelectionStep::Apply(_), Some(_)) => SelectionChange {
            step: SelectionStep::Refused,
            failure,
            ..change
        },
        (SelectionStep::Store, None) => SelectionChange {
            step: if change.running {
                SelectionStep::Apply(change.operation)
            } else {
                SelectionStep::Commit
            },
            ..change
        },
        (SelectionStep::Apply(_), None) => SelectionChange {
            step: SelectionStep::Commit,
            ..change
        },
        (SelectionStep::Commit, _) => SelectionChange {
            step: if change.running {
                SelectionStep::PublishRuntimeViews
            } else {
                SelectionStep::Done
            },
            ..change
        },
        (SelectionStep::PublishRuntimeViews, _) => SelectionChange {
            step: SelectionStep::Done,
            ..change
        },
        _ => change,
    }
}

impl SelectionChange {
    /// Begins to replace a selection. `entry` is the inner entry of the service, where it runs.
    pub fn begin(
        service: ServiceState,
        enabledNow: bool,
        selection: &PersistedProcessSelection,
        processes: &Vec<ProcessCandidate>,
        listenPort: u16,
        idle: IpAddress,
        entry: Option<Endpoint>,
    ) -> (result: SelectionChange)
        requires
            service == ServiceState::Running ==> entry is Some,
        ensures
            result.running == (service == ServiceState::Running),
            result.operation == operationFor(enabledNow, selection.enabled),
            isCaptureFor(
                result.target@,
                *selection,
                processViews(processes@),
                captureEntry(service, listenPort, idle, entry),
            ),
            result.step == SelectionStep::Store,
            result.failure is None,
    {
        SelectionChange {
            running: service == ServiceState::Running,
            operation: captureOperation(enabledNow, selection.enabled),
            target: captureForSelection(selection, processes, service, listenPort, idle, entry),
            step: SelectionStep::Store,
            failure: None,
        }
    }

    /// What the running capture is ordered to do in the current step.
    pub fn order(&self) -> (result: Option<CaptureOrder>)
        ensures
            result == orderOf(self),
    {
        match self.step {
            SelectionStep::Apply(operation) => Some(
                match operation {
                    CaptureOperation::UpdateProcessIds => CaptureOrder::UpdateProcessIds(
                        &self.target.processIds,
                    ),
                    CaptureOperation::Start => CaptureOrder::Start(&self.target),
                    CaptureOperation::Stop => CaptureOrder::Stop,
                    CaptureOperation::Keep => CaptureOrder::Keep,
                },
            ),
            _ => None,
        }
    }

    /// Puts what the capture was told into force; before its turn nothing changes.
    pub fn commit(&self, current: &mut ProcessCaptureConfiguration)
        ensures
            final(current)@ == if self.step is Commit {
                self.target@
            } else {
                old(current)@
            },
    {
        match self.step {
            SelectionStep::Commit => {
                *current = ProcessCaptureConfiguration {
                    enabled: self.target.enabled,
                    processIds: copyIds(&self.target.processIds),
                    proxyPort: self.target.proxyPort,
                    proxyAddress: self.target.proxyAddress,
                };
            },
            _ => {},
        }
    }

    /// What the current step's outcome leads to.
    pub fn replaceProcessSelection(self, failure: Option<String>) -> (result: SelectionChange)
        ensures
            result == nextSelection(self, failure),
    {
        match (self.step, &failure) {
            (SelectionStep::Store, Some(_)) | (SelectionStep::Apply(_), Some(_)) => SelectionChange {
                step: SelectionStep::Refused,
                failure,
                ..self
            },
            (SelectionStep::Store, None) => SelectionChange {
                step: if self.running {
                    SelectionStep::Apply(self.operation)
                } else {
                    SelectionStep::Commit
                },
                ..self
            },
            (SelectionStep::Apply(_), None) => SelectionChange {
                step: SelectionStep::Commit,
                ..self
            },
            (SelectionStep::Commit, _) => SelectionChange {
                step: if self.running {
                    SelectionStep::PublishRuntimeViews
                } else {
                    SelectionStep::Done
                },
                ..self
            },
            (SelectionStep::PublishRuntimeViews, _) => SelectionChange {
                step: SelectionStep::Done,
                ..self
            },
            _ => self,
        }
    }

    /// The error that answers the client, where the selection was not put into effect.
    pub fn refusal(&self) -> (result: Option<ApiError>)
        ensures
            match (self.step, self.failure) {
                (SelectionStep::Refused, Some(detail)) => result matches Some(error) && error@
                    == detailedError(500, ErrorCode::ProcessSelectionOperationFailed, detail@),
                _ => result is None,
            },
    {
        match (self.step, &self.failure) {
            (SelectionStep::Refused, Some(detail)) => Some(
                ApiError::internal(ErrorCode::ProcessSelectionOperationFailed).withDetail(
                    copyText(detail.as_str()),
                ),
            ),
            _ => None,
        }
    }
}

/// A selection comes into effect only once it is stored and a running capture has taken it, a capture
/// is never touched while the service does not run, and what it is told stays the same throughout.
pub proof fn lawSelectionIsStoredFirst(change: SelectionChange, failure: Option<String>)
    ensures
        nextSelection(change, failure).step == SelectionStep::Commit && change.step
            != SelectionStep::Commit ==> failure is None && (change.step is Apply || (change.step
            is Store && !change.running)),
        nextSelection(change, failure).step is Apply && !(change.step is Apply)
            ==> change.running && change.step is Store,
        change.step is Refused ==> nextSelection(change, failure) == change,
        nextSelection(change, failure).target == change.target,
{
}

/// What a cycle of the capture does next.
#[derive(Clone, Copy, Debug, PartialEq, Eq, Structural)]
pub enum SynchronizationStep {
    /// Tell the capture the numbers, whether or not they changed: it tries again what failed before.
    UpdateProcessIds,
    /// Put the numbers into force.
    Adopt,
    /// Report that the capture did not take the numbers.
    Report,
    /// Publish what the capture counts, whether or not the numbers changed.
    PublishCaptureView,
    Done,
}

/// What follows a step of a cycle.
pub open spec fn followingSynchronization(step: SynchronizationStep, succeeded: bool) -> SynchronizationStep {
    match step {
        SynchronizationStep::UpdateProcessIds => if succeeded {
            SynchronizationStep::Adopt
        } else {
            SynchronizationStep::Report
        },
        SynchronizationStep::Adopt => SynchronizationStep::PublishCaptureView,
        SynchronizationStep::Report => SynchronizationStep::PublishCaptureView,
        SynchronizationStep::PublishCaptureView => SynchronizationStep::Done,
        SynchronizationStep::Done => SynchronizationStep::Done,
    }
}

/// Begins a cycle: the numbers of chosen processes are brought up to date only while nothing else works
/// on the service, the service runs and the capture is on.
pub fn synchronizeSelectedProcessIds(exclusive: bool, service: ServiceState, enabled: bool) -> (result:
    SynchronizationStep)
    ensures
        result == if exclusive && service == ServiceState::Running && enabled {
            SynchronizationStep::UpdateProcessIds
        } else {
            SynchronizationStep::Done
        },
{
    if exclusive && service == ServiceState::Running && enabled {
        SynchronizationStep::UpdateProcessIds
    } else {
        SynchronizationStep::Done
    }
}

impl SynchronizationStep {
    /// What follows the step.
    pub fn advance(self, succeeded: bool) -> (result: SynchronizationStep)
        ensures
            result == followingSynchronization(self, succeeded),
    {
        match self {
            SynchronizationStep::UpdateProcessIds => if succeeded {
                SynchronizationStep::Adopt
            } else {
                SynchronizationStep::Report
            },
            SynchronizationStep::Adopt => SynchronizationStep::PublishCaptureView,
            SynchronizationStep::Report => SynchronizationStep::PublishCaptureView,
            SynchronizationStep::PublishCaptureView => SynchronizationStep::Done,
            SynchronizationStep::Done => SynchronizationStep::Done,
        }
    }
}

/// Every cycle that was begun publishes what the capture counts before it ends, and puts numbers into
/// force only where the capture took them.
pub proof fn lawCycleIsPublished(step: SynchronizationStep, succeeded: bool)
    ensures
        step != SynchronizationStep::Done && followingSynchronization(step, succeeded)
            == SynchronizationStep::Done ==> step == SynchronizationStep::PublishCaptureView,
        followingSynchronization(step, succeeded) == SynchronizationStep::Adopt ==> step
            == SynchronizationStep::UpdateProcessIds && succeeded,
        followingSynchronization(
            followingSynchronization(SynchronizationStep::UpdateProcessIds, succeeded),
            true,
        ) == SynchronizationStep::PublishCaptureView,
{
}

// ---------------------------------------------------------------------------
// Icons
// ---------------------------------------------------------------------------

/// An icon as an address that a browser shows.
pub fn iconDataUrl(png: &Vec<u8>) -> (result: String)
    ensures
        result@ == "data:image/png;base64,"@ + base64Text(png@),
{
    let encoded = encodeBase64(png.as_slice());
    concatText("data:image/png;base64,", encoded.as_str())
}

/// What is known of a path's icon: its key and its address, where it has one.
#[derive(Debug)]
pub struct IconRecord {
    pub key: String,
    pub url: Option<String>,
}

/// The key and the address of a record.
pub type IconView = (Seq<char>, Option<Seq<char>>);

/// The values of records.
pub open spec fn iconViews(records: Seq<IconRecord>) -> Seq<IconView> {
    records.map_values(
        |record: IconRecord| (record.key@, crate::text::optionalView(record.url)),
    )
}

/// What is known under a key; `None` where nothing is.
pub open spec fn iconOf(records: Seq<IconView>, key: Seq<char>) -> Option<Option<Seq<char>>>
    decreases records.len(),
{
    if records.len() == 0 {
        None
    } else if records[0].0 == key {
        Some(records[0].1)
    } else {
        iconOf(records.drop_first(), key)
    }
}

/// The icons that were looked for. A path without an icon is remembered too, so that it is not looked
/// for again.
#[derive(Debug)]
pub struct IconCache {
    pub records: Vec<IconRecord>,
}

impl View for IconCache {
    type V = Seq<IconView>;

    open spec fn view(&self) -> Seq<IconView> {
        iconViews(self.records@)
    }
}

/// The icons of paths by their lower-case form, each path once.
pub open spec fn iconTable(records: Seq<IconView>, paths: Seq<Seq<char>>) -> Seq<KeyedView>
    decreases paths.len(),
{
    if paths.len() == 0 {
        Seq::empty()
    } else {
        let before = iconTable(records, paths.drop_last());
        match iconOf(records, lowered(paths.last())) {
            Some(Some(url)) => keyedInserted(before, lowered(paths.last()), url),
            _ => before,
        }
    }
}

impl IconCache {
    /// No icons were looked for.
    pub fn new() -> (result: IconCache)
        ensures
            result@.len() == 0,
    {
        IconCache { records: Vec::new() }
    }

    fn find(&self, key: &str) -> (result: Option<usize>)
        ensures
            match result {
                Some(i) => i < self.records@.len() && iconOf(self@, key@) == Some(
                    self@[i as int].1,
                ),
                None => iconOf(self@, key@) is None,
            },
    {
        let ghost all = self@;
        let mut i: usize = 0;
        assert(all.skip(0) == all);
        while i < self.records.len()
            invariant
                i <= self.records.len(),
                all == iconViews(self.records@),
                iconOf(all, key@) == iconOf(all.skip(i as int), key@),
            decreases self.records.len() - i,
        {
            assert(all.skip(i as int)[0] == all[i as int]);
            assert(all[i as int].0 == self.records@[i as int].key@);
            assert(all.skip(i as int).drop_first() == all.skip(i + 1));
            if equalText(self.records[i].key.as_str(), key) {
                return Some(i);
            }
            i += 1;
        }
        None
    }

    /// Whether a path's icon still has to be looked for.
    pub fn isMissing(&self, path: &str) -> (result: bool)
        ensures
            result == iconOf(self@, lowered(path@)) is None,
    {
        let key = lowerText(path);
        self.find(key.as_str()).is_none()
    }

    /// Remembers what looking for a path's icon came to.
    pub fn remember(&mut self, path: &str, png: &Option<Vec<u8>>)
        ensures
            final(self)@ == old(self)@.push(
                (
                    lowered(path@),
                    match *png {
                        Some(bytes) => Some("data:image/png;base64,"@ + base64Text(bytes@)),
                        None => None,
                    },
                ),
            ),
    {
        let ghost before = self@;
        let key = lowerText(path);
        let url = match png {
            Some(bytes) => Some(iconDataUrl(bytes)),
            None => None,
        };
        self.records.push(IconRecord { key, url });
        assert(self@ == before.push(self@.last()));
    }

    /// The icons of paths.
    pub fn processIcons(&self, paths: &Vec<String>) -> (result: Vec<KeyedText>)
        ensures
            keyedViews(result@) == iconTable(self@, views(paths@)),
    {
        let ghost all = views(paths@);
        let mut table: Vec<KeyedText> = Vec::new();
        let mut i: usize = 0;
        assert(all.take(0).len() == 0);
        assert(keyedViews(table@) == iconTable(self@, all.take(0)));
        while i < paths.len()
            invariant
                i <= paths.len(),
                all == views(paths@),
                keyedViews(table@) == iconTable(self@, all.take(i as int)),
            decreases paths.len() - i,
        {
            assert(all.take(i + 1).drop_last() == all.take(i as int));
            assert(all.take(i + 1).last() == paths@[i as int]@);
            let key = lowerText(paths[i].as_str());
            match self.find(key.as_str()) {
                Some(k) => {
                    assert(self@[k as int].1 == crate::text::optionalView(
                        self.records@[k as int].url,
                    ));
                    match &self.records[k].url {
                        Some(url) => {
                            let copy = copyText(url.as_str());
                            insertKeyed(&mut table, key, copy);
                        },
                        None => {},
                    }
                },
                None => {},
            }
            i += 1;
        }
        assert(all.take(i as int) == all);
        table
    }
}

// ---------------------------------------------------------------------------
// What clients see
// ---------------------------------------------------------------------------

/// The paths whose icons are shown: those of the processes, then the chosen ones.
pub open spec fn iconPaths(processes: Seq<ProcessView>, chosen: Seq<Seq<char>>) -> Seq<Seq<char>> {
    processes.map_values(|process: ProcessView| process.executablePath) + chosen
}

/// The paths whose icons are shown.
pub fn pathsForIcons(
    selection: &PersistedProcessSelection,
    processes: &Vec<ProcessCandidate>,
) -> (result: Vec<String>)
    ensures
        views(result@) == iconPaths(processViews(processes@), views(selection.selectedPaths@)),
{
    let ghost all = iconPaths(processViews(processes@), views(selection.selectedPaths@));
    let mut paths: Vec<String> = Vec::new();
    let mut i: usize = 0;
    while i < processes.len()
        invariant
            i <= processes.len(),
            all == iconPaths(processViews(processes@), views(selection.selectedPaths@)),
            views(paths@) == all.take(i as int),
        decreases processes.len() - i,
    {
        let ghost before = views(paths@);
        paths.push(copyText(processes[i].executablePath.as_str()));
        assert(all[i as int] == processes@[i as int].executablePath@);
        assert(views(paths@) == before.push(all[i as int]));
        i += 1;
        assert(views(paths@) == all.take(i as int));
    }
    let mut j: usize = 0;
    while j < selection.selectedPaths.len()
        invariant
            j <= selection.selectedPaths.len(),
            all == iconPaths(processViews(processes@), views(selection.selectedPaths@)),
            views(paths@) == all.take(processes@.len() + j),
        decreases selection.selectedPaths.len() - j,
    {
        let ghost before = views(paths@);
        paths.push(copyText(selection.selectedPaths[j].as_str()));
        assert(all[processes@.len() + j] == selection.selectedPaths@[j as int]@);
        assert(views(paths@) == before.push(all[processes@.len() + j]));
        j += 1;
        assert(views(paths@) == all.take(processes@.len() + j));
    }
    assert(all.take(processes@.len() + j) == all);
    paths
}

/// What clients see of a selection, with the processes that run now and the icons that are known.
pub fn processSelectionSnapshot(
    selection: &PersistedProcessSelection,
    processes: Vec<ProcessCandidate>,
    icons: &IconCache,
) -> (result: ProcessSelectionSnapshot)
    ensures
        result.enabled == selection.enabled,
        views(result.selectedPaths@) == views(selection.selectedPaths@),
        result.processes == processes,
        areAscending(result.resolvedProcessIds@),
        forall|id: u32| #[trigger]
            result.resolvedProcessIds@.contains(id) <==> isSelectedProcess(
                views(selection.selectedPaths@),
                processViews(processes@),
                id,
            ),
        keyedViews(result.processIcons@) == iconTable(
            icons@,
            iconPaths(processViews(processes@), views(selection.selectedPaths@)),
        ),
{
    let paths = pathsForIcons(selection, &processes);
    let processIcons = icons.processIcons(&paths);
    let resolvedProcessIds = resolveSelectedProcessIds(&selection.selectedPaths, &processes);
    ProcessSelectionSnapshot {
        enabled: selection.enabled,
        selectedPaths: copyTexts(&selection.selectedPaths),
        resolvedProcessIds,
        processes,
        processIcons,
    }
}

proof fn lemmaInsertedKey(entries: Seq<KeyedView>, key: Seq<char>, value: Seq<char>, other: KeyedView)
    ensures
        exists|i: int|
            0 <= i < keyedInserted(entries, key, value).len() && (#[trigger] keyedInserted(
                entries,
                key,
                value,
            )[i]).0 == key,
        entries.contains(other) ==> keyedInserted(entries, key, value).contains(other),
        keyedInserted(entries, key, value).contains(other) ==> entries.contains(other) || other == (
            key,
            value,
        ),
        (forall|i: int| 0 <= i < entries.len() ==> (#[trigger] entries[i]).0 != key)
            ==> keyedInserted(entries, key, value).contains((key, value)),
    decreases entries.len(),
{
    let result = keyedInserted(entries, key, value);
    if entries.len() == 0 || textLess(entries.last().0, key) {
        assert(result[result.len() - 1] == (key, value));
        if entries.contains(other) {
            let k = choose|k: int| 0 <= k < entries.len() && entries[k] == other;
            assert(result[k] == other);
        }
        if result.contains(other) {
            let k = choose|k: int| 0 <= k < result.len() && result[k] == other;
            if k < entries.len() {
                assert(entries[k] == other);
            }
        }
    } else if entries.last().0 == key {
        assert(result[result.len() - 1].0 == key);
        assert(entries[entries.len() - 1].0 == key);
    } else {
        let shorter = entries.drop_last();
        let before = keyedInserted(shorter, key, value);
        lemmaInsertedKey(shorter, key, value, other);
        let i = choose|i: int| 0 <= i < before.len() && (#[trigger] before[i]).0 == key;
        assert(result[i] == before[i]);
        assert(result[result.len() - 1] == entries.last());
        if entries.contains(other) {
            let k = choose|k: int| 0 <= k < entries.len() && entries[k] == other;
            if k < shorter.len() {
                assert(shorter[k] == other);
                assert(shorter.contains(other));
                let m = choose|m: int| 0 <= m < before.len() && before[m] == other;
                assert(result[m] == other);
            }
        }
        if result.contains(other) {
            let k = choose|k: int| 0 <= k < result.len() && result[k] == other;
            if k < before.len() {
                assert(before[k] == other);
                assert(before.contains(other));
                if shorter.contains(other) {
                    let m = choose|m: int| 0 <= m < shorter.len() && shorter[m] == other;
                    assert(entries[m] == other);
                }
            } else {
                assert(entries[entries.len() - 1] == other);
            }
        }
        if forall|i: int| 0 <= i < entries.len() ==> (#[trigger] entries[i]).0 != key {
            assert forall|i: int| 0 <= i < shorter.len() implies (#[trigger] shorter[i]).0
                != key by {
                assert(shorter[i] == entries[i]);
            }
            let m = choose|m: int| 0 <= m < before.len() && before[m] == (key, value);
            assert(result[m] == (key, value));
        }
    }
}

/// Every path that is chosen stays chosen, without the blanks around it and whatever its case; nothing is chosen
/// that was not, and blank paths count for nothing.
pub proof fn lawChosenPathsStayChosen(paths: Seq<Seq<char>>)
    ensures
        forall|i: int|
            0 <= i < paths.len() && trimmed(#[trigger] paths[i]).len() > 0 ==> exists|k: int|
                0 <= k < normalizedPaths(paths).len() && lowered(
                    #[trigger] normalizedPaths(paths)[k],
                ) == lowered(trimmed(paths[i])),
        forall|k: int|
            0 <= k < normalizedPaths(paths).len() ==> exists|i: int|
                0 <= i < paths.len() && #[trigger] trimmed(paths[i])
                    == #[trigger] normalizedPaths(paths)[k],
{
    lemmaChosenEntries(paths);
    let entries = pathEntries(paths);
    let texts = normalizedPaths(paths);
    assert forall|i: int| 0 <= i < paths.len() && trimmed(#[trigger] paths[i]).len() > 0 implies exists|
        k: int,
    |
        0 <= k < texts.len() && lowered(#[trigger] texts[k]) == lowered(trimmed(paths[i])) by {
        let k = choose|k: int|
            0 <= k < entries.len() && (#[trigger] entries[k]).0 == lowered(trimmed(paths[i]));
        assert(texts[k] == entries[k].1);
        assert(entries[k].0 == lowered(entries[k].1));
    }
    assert forall|k: int| 0 <= k < texts.len() implies exists|i: int|
        0 <= i < paths.len() && #[trigger] trimmed(paths[i]) == #[trigger] texts[k] by {
        assert(texts[k] == entries[k].1);
        let i = choose|i: int| 0 <= i < paths.len() && #[trigger] trimmed(paths[i]) == entries[k].1;
        assert(trimmed(paths[i]) == texts[k]);
    }
}

proof fn lemmaChosenEntries(paths: Seq<Seq<char>>)
    ensures
        forall|i: int|
            0 <= i < paths.len() && trimmed(#[trigger] paths[i]).len() > 0 ==> exists|k: int|
                0 <= k < pathEntries(paths).len() && (#[trigger] pathEntries(paths)[k]).0 == lowered(
                    trimmed(paths[i]),
                ),
        forall|k: int|
            0 <= k < pathEntries(paths).len() ==> (#[trigger] pathEntries(paths)[k]).0 == lowered(
                pathEntries(paths)[k].1,
            ) && exists|i: int|
                0 <= i < paths.len() && #[trigger] trimmed(paths[i]) == pathEntries(paths)[k].1,
    decreases paths.len(),
{
    if paths.len() > 0 {
        let shorter = paths.drop_last();
        let before = pathEntries(shorter);
        let all = pathEntries(paths);
        lemmaChosenEntries(shorter);
        let path = trimmed(paths.last());
        assert(paths[paths.len() - 1] == paths.last());
        assert forall|i: int| 0 <= i < paths.len() && trimmed(#[trigger] paths[i]).len() > 0 implies exists|
            k: int,
        |
            0 <= k < all.len() && (#[trigger] all[k]).0 == lowered(trimmed(paths[i])) by {
            if i < shorter.len() {
                assert(shorter[i] == paths[i]);
                let k = choose|k: int|
                    0 <= k < before.len() && (#[trigger] before[k]).0 == lowered(trimmed(paths[i]));
                if path.len() > 0 {
                    lemmaInsertedKey(before, lowered(path), path, before[k]);
                    assert(before.contains(before[k]));
                    let m = choose|m: int| 0 <= m < all.len() && all[m] == before[k];
                    assert(all[m].0 == lowered(trimmed(paths[i])));
                } else {
                    assert(all[k] == before[k]);
                }
            } else {
                lemmaInsertedKey(before, lowered(path), path, (lowered(path), path));
            }
        }
        assert forall|k: int| 0 <= k < all.len() implies (#[trigger] all[k]).0 == lowered(all[k].1)
            && exists|i: int| 0 <= i < paths.len() && #[trigger] trimmed(paths[i]) == all[k].1 by {
            if path.len() > 0 {
                lemmaInsertedKey(before, lowered(path), path, all[k]);
                assert(all.contains(all[k]));
            } else {
                assert(before[k] == all[k]);
                assert(before.contains(all[k]));
            }
            if before.contains(all[k]) {
                let m = choose|m: int| 0 <= m < before.len() && before[m] == all[k];
                assert(before[m].0 == lowered(before[m].1));
                let i = choose|i: int|
                    0 <= i < shorter.len() && #[trigger] trimmed(shorter[i]) == before[m].1;
                assert(trimmed(paths[i]) == all[k].1);
            } else {
                assert(trimmed(paths[paths.len() - 1]) == all[k].1);
            }
        }
    }
}

/// Every process that tells where its program lies is listed, and no other is.
pub proof fn lawRunningProcessesAreListed(processes: Seq<ProcessView>, process: ProcessView)
    ensures
        orderedProcesses(processes).contains(process) <==> processes.contains(process)
            && process.executablePath.len() > 0,
    decreases processes.len(),
{
    if processes.len() > 0 {
        let shorter = processes.drop_last();
        let before = orderedProcesses(shorter);
        let all = orderedProcesses(processes);
        lawRunningProcessesAreListed(shorter, process);
        lemmaInsertedProcess(before, processes.last(), process);
        assert(processes[processes.len() - 1] == processes.last());
        if processes.contains(process) {
            let k = choose|k: int| 0 <= k < processes.len() && processes[k] == process;
            if k < shorter.len() {
                assert(shorter[k] == process);
                assert(shorter.contains(process));
            }
        }
        if shorter.contains(process) {
            let k = choose|k: int| 0 <= k < shorter.len() && shorter[k] == process;
            assert(processes[k] == process);
        }
    }
}

proof fn lemmaInsertedProcess(ordered: Seq<ProcessView>, process: ProcessView, other: ProcessView)
    ensures
        insertedProcess(ordered, process).contains(other) <==> ordered.contains(other) || other
            == process,
    decreases ordered.len(),
{
    let result = insertedProcess(ordered, process);
    if ordered.len() == 0 || !isBefore(process, ordered.last()) {
        assert(result[result.len() - 1] == process);
        if ordered.contains(other) {
            let k = choose|k: int| 0 <= k < ordered.len() && ordered[k] == other;
            assert(result[k] == other);
        }
        if result.contains(other) {
            let k = choose|k: int| 0 <= k < result.len() && result[k] == other;
            if k < ordered.len() {
                assert(ordered[k] == other);
            }
        }
    } else {
        let shorter = ordered.drop_last();
        let before = insertedProcess(shorter, process);
        lemmaInsertedProcess(shorter, process, other);
        assert(result[result.len() - 1] == ordered.last());
        assert(ordered[ordered.len() - 1] == ordered.last());
        if before.contains(other) {
            let k = choose|k: int| 0 <= k < before.len() && before[k] == other;
            assert(result[k] == other);
        }
        if result.contains(other) {
            let k = choose|k: int| 0 <= k < result.len() && result[k] == other;
            if k < before.len() {
                assert(before[k] == other);
                assert(before.contains(other));
            }
        }
        if ordered.contains(other) {
            let k = choose|k: int| 0 <= k < ordered.len() && ordered[k] == other;
            if k < shorter.len() {
                assert(shorter[k] == other);
                assert(shorter.contains(other));
            }
        }
        if shorter.contains(other) {
            let k = choose|k: int| 0 <= k < shorter.len() && shorter[k] == other;
            assert(ordered[k] == other);
        }
    }
}

/// Processes are listed by name, in any case, and those of one name by number.
pub proof fn lawProcessesAreListedByName(processes: Seq<ProcessView>)
    ensures
        forall|i: int, j: int|
            0 <= i < j < orderedProcesses(processes).len() ==> {
                let first = #[trigger] orderedProcesses(processes)[i];
                let second = #[trigger] orderedProcesses(processes)[j];
                !textLess(lowered(second.name), lowered(first.name)) && (lowered(first.name)
                    == lowered(second.name) ==> first.processId <= second.processId)
            },
    decreases processes.len(),
{
    lemmaOrderedProcesses(processes);
    let ordered = orderedProcesses(processes);
    assert forall|i: int, j: int| 0 <= i < j < ordered.len() implies {
        let first = #[trigger] ordered[i];
        let second = #[trigger] ordered[j];
        !textLess(lowered(second.name), lowered(first.name)) && (lowered(first.name) == lowered(
            second.name,
        ) ==> first.processId <= second.processId)
    } by {
        assert(!isBefore(ordered[j], ordered[i]));
    }
}

spec fn areOrderedProcesses(ordered: Seq<ProcessView>) -> bool {
    forall|i: int, j: int|
        0 <= i < j < ordered.len() ==> !isBefore(#[trigger] ordered[j], #[trigger] ordered[i])
}

proof fn lemmaOrderedProcesses(processes: Seq<ProcessView>)
    ensures
        areOrderedProcesses(orderedProcesses(processes)),
    decreases processes.len(),
{
    if processes.len() > 0 {
        lemmaOrderedProcesses(processes.drop_last());
        lemmaInsertedInOrder(orderedProcesses(processes.drop_last()), processes.last());
    }
}

proof fn lemmaNotBefore(first: ProcessView, second: ProcessView, third: ProcessView)
    ensures
        !isBefore(second, first) && !isBefore(third, second) ==> !isBefore(third, first),
        isBefore(first, second) ==> !isBefore(second, first),
{
    let a = lowered(first.name);
    let b = lowered(second.name);
    let c = lowered(third.name);
    lemmaTextOrderTotal(a, b);
    lemmaTextOrderTotal(b, c);
    lemmaTextOrderTotal(a, c);
    if textLess(c, a) && textLess(a, b) {
        lemmaTextOrderTransitive(c, a, b);
    }
    if textLess(b, c) && textLess(c, a) {
        lemmaTextOrderTransitive(b, c, a);
    }
}

proof fn lemmaInsertedInOrder(ordered: Seq<ProcessView>, process: ProcessView)
    requires
        areOrderedProcesses(ordered),
    ensures
        areOrderedProcesses(insertedProcess(ordered, process)),
    decreases ordered.len(),
{
    let result = insertedProcess(ordered, process);
    if ordered.len() == 0 || !isBefore(process, ordered.last()) {
        assert forall|i: int, j: int| 0 <= i < j < result.len() implies !isBefore(
            #[trigger] result[j],
            #[trigger] result[i],
        ) by {
            if j == ordered.len() && i < ordered.len() - 1 {
                assert(!isBefore(ordered[ordered.len() - 1], ordered[i]));
                lemmaNotBefore(ordered[i], ordered.last(), process);
            }
        }
    } else {
        let shorter = ordered.drop_last();
        let before = insertedProcess(shorter, process);
        assert(areOrderedProcesses(shorter));
        lemmaInsertedInOrder(shorter, process);
        assert forall|i: int, j: int| 0 <= i < j < result.len() implies !isBefore(
            #[trigger] result[j],
            #[trigger] result[i],
        ) by {
            if j < before.len() {
                assert(!isBefore(before[j], before[i]));
            } else {
                lemmaInsertedProcess(shorter, process, before[i]);
                assert(before.contains(before[i]));
                if before[i] == process {
                    lemmaNotBefore(process, ordered.last(), process);
                } else {
                    let k = choose|k: int| 0 <= k < shorter.len() && shorter[k] == before[i];
                    assert(!isBefore(ordered[ordered.len() - 1], ordered[k]));
                }
            }
        }
    }
}

/// Only the change is carried out: a capture that goes on is told its processes, one that begins is started,
/// one that ends is stopped, and one that stays off is left alone.
pub proof fn lawCaptureFollowsTheSwitch(enabledNow: bool, enabledNext: bool)
    ensures
        operationFor(enabledNow, enabledNext) == CaptureOperation::Start <==> !enabledNow
            && enabledNext,
        operationFor(enabledNow, enabledNext) == CaptureOperation::Stop <==> enabledNow
            && !enabledNext,
        operationFor(enabledNow, enabledNext) == CaptureOperation::UpdateProcessIds <==> enabledNow
            && enabledNext,
        operationFor(enabledNow, enabledNext) == CaptureOperation::Keep <==> !enabledNow
            && !enabledNext,
{
}

/// A selection that meets no failure is stored, carried out where the service runs, put into effect and
/// published; one that fails before is refused with the reason.
pub proof fn lawSelectionTakesEffect(change: SelectionChange, failure: Option<String>)
    ensures
        change.step is Store ==> nextSelection(change, None).step == if change.running {
            SelectionStep::Apply(change.operation)
        } else {
            SelectionStep::Commit
        },
        change.step is Apply ==> nextSelection(change, None).step == SelectionStep::Commit,
        change.step is Commit ==> nextSelection(change, failure).step == if change.running {
            SelectionStep::PublishRuntimeViews
        } else {
            SelectionStep::Done
        },
        change.step is PublishRuntimeViews ==> nextSelection(change, failure).step
            == SelectionStep::Done,
        (change.step is Store || change.step is Apply) && failure is Some ==> nextSelection(
            change,
            failure,
        ).step == SelectionStep::Refused && nextSelection(change, failure).failure == failure,
{
}

/// While the service runs the capture leads to its inner entry, else to where the service will listen; and a
/// capture that is off names no process.
pub proof fn lawCaptureLeadsToTheEntry(
    service: ServiceState,
    listenPort: u16,
    idle: IpAddress,
    inner: Endpoint,
    capture: CaptureView,
    selection: PersistedProcessSelection,
    processes: Seq<ProcessView>,
)
    requires
        isCaptureFor(
            capture,
            selection,
            processes,
            captureEntry(service, listenPort, idle, Some(inner)),
        ),
    ensures
        service == ServiceState::Running ==> capture.proxyAddress == inner.address
            && capture.proxyPort == inner.port,
        service != ServiceState::Running ==> capture.proxyAddress == idle && capture.proxyPort
            == listenPort,
        capture.enabled == selection.enabled,
        !selection.enabled ==> capture.processIds.len() == 0,
        selection.enabled ==> forall|i: int|
            0 <= i < processes.len() && isSelected(
                views(selection.selectedPaths@),
                (#[trigger] processes[i]).executablePath,
            ) ==> capture.processIds.contains(processes[i].processId),
{
    if !selection.enabled && capture.processIds.len() > 0 {
        assert(capture.processIds.contains(capture.processIds[0]));
    }
}

/// A round tells the capture its processes, adopts them where it took them and reports where not, and then
/// publishes and ends.
pub proof fn lawRoundTakesItsSteps()
    ensures
        followingSynchronization(SynchronizationStep::UpdateProcessIds, true)
            == SynchronizationStep::Adopt,
        followingSynchronization(SynchronizationStep::UpdateProcessIds, false)
            == SynchronizationStep::Report,
        followingSynchronization(SynchronizationStep::Adopt, true)
            == SynchronizationStep::PublishCaptureView,
        followingSynchronization(SynchronizationStep::Report, true)
            == SynchronizationStep::PublishCaptureView,
        followingSynchronization(SynchronizationStep::PublishCaptureView, true)
            == SynchronizationStep::Done,
{
}

/// An icon that is remembered is shown for every path that it belongs to, whatever its case; a program that is
/// known to have none is shown none.
pub proof fn lawRememberedIconIsShown(
    records: Seq<IconView>,
    paths: Seq<Seq<char>>,
    i: int,
    url: Seq<char>,
)
    requires
        0 <= i < paths.len(),
        iconOf(records, lowered(paths[i])) == Some(Some(url)),
    ensures
        iconTable(records, paths).contains((lowered(paths[i]), url)),
        forall|entry: KeyedView| #[trigger]
            iconTable(records, paths).contains(entry) ==> iconOf(records, entry.0) == Some(
                Some(entry.1),
            ),
    decreases paths.len(),
{
    lemmaIconTable(records, paths);
    let table = iconTable(records, paths);
    let key = lowered(paths[i]);
    assert(exists|k: int| 0 <= k < table.len() && (#[trigger] table[k]).0 == key);
    let k = choose|k: int| 0 <= k < table.len() && (#[trigger] table[k]).0 == key;
    assert(table.contains(table[k]));
    assert(table[k] == (key, url));
}

proof fn lemmaIconTable(records: Seq<IconView>, paths: Seq<Seq<char>>)
    ensures
        forall|entry: KeyedView| #[trigger]
            iconTable(records, paths).contains(entry) ==> iconOf(records, entry.0) == Some(
                Some(entry.1),
            ),
        forall|i: int|
            0 <= i < paths.len() && (iconOf(records, lowered(#[trigger] paths[i])) matches Some(
                Some(_),
            )) ==> exists|k: int|
                0 <= k < iconTable(records, paths).len() && (#[trigger] iconTable(
                    records,
                    paths,
                )[k]).0 == lowered(paths[i]),
    decreases paths.len(),
{
    if paths.len() > 0 {
        let shorter = paths.drop_last();
        let before = iconTable(records, shorter);
        let all = iconTable(records, paths);
        lemmaIconTable(records, shorter);
        let key = lowered(paths.last());
        match iconOf(records, key) {
            Some(Some(url)) => {
                assert forall|entry: KeyedView| #[trigger] all.contains(entry) implies iconOf(
                    records,
                    entry.0,
                ) == Some(Some(entry.1)) by {
                    lemmaInsertedKey(before, key, url, entry);
                }
                assert forall|i: int|
                    0 <= i < paths.len() && (iconOf(records, lowered(#[trigger] paths[i]))
                        matches Some(Some(_))) implies exists|k: int|
                    0 <= k < all.len() && (#[trigger] all[k]).0 == lowered(paths[i]) by {
                    if i < shorter.len() {
                        assert(shorter[i] == paths[i]);
                        let k = choose|k: int|
                            0 <= k < before.len() && (#[trigger] before[k]).0 == lowered(paths[i]);
                        lemmaInsertedKey(before, key, url, before[k]);
                        assert(before.contains(before[k]));
                        let m = choose|m: int| 0 <= m < all.len() && all[m] == before[k];
                        assert(all[m].0 == lowered(paths[i]));
                    } else {
                        lemmaInsertedKey(before, key, url, (key, url));
                    }
                }
            },
            _ => {
                assert forall|i: int|
                    0 <= i < paths.len() && (iconOf(records, lowered(#[trigger] paths[i]))
                        matches Some(Some(_))) implies exists|k: int|
                    0 <= k < all.len() && (#[trigger] all[k]).0 == lowered(paths[i]) by {
                    assert(i < shorter.len());
                    assert(shorter[i] == paths[i]);
                }
            },
        }
    }
}

/// What is ordered of the capture is what the change decided, with the target that it was decided for; a change that
/// does something else orders nothing.
pub proof fn lawDecidedOperationIsOrdered(change: SelectionChange)
    ensures
        change.step == SelectionStep::Apply(CaptureOperation::Stop) ==> orderOf(&change) == Some(
            CaptureOrder::Stop,
        ),
        change.step == SelectionStep::Apply(CaptureOperation::Keep) ==> orderOf(&change) == Some(
            CaptureOrder::Keep,
        ),
        change.step == SelectionStep::Apply(CaptureOperation::Start) ==> orderOf(&change) == Some(
            CaptureOrder::Start(&change.target),
        ),
        change.step == SelectionStep::Apply(CaptureOperation::UpdateProcessIds) ==> orderOf(&change)
            == Some(CaptureOrder::UpdateProcessIds(&change.target.processIds)),
        orderOf(&change) is Some <==> change.step is Apply,
{
}

/// The paths that are kept are known whatever their letter case, none is kept twice, and none has blanks around it.
pub proof fn lawKeptPathsAreDistinct(entries: Seq<KeyedView>, i: int, j: int)
    requires
        arePathEntries(entries),
        0 <= i < j < entries.len(),
    ensures
        lowered(entries[i].1) != lowered(entries[j].1),
        textLess(lowered(entries[i].1), lowered(entries[j].1)),
        trimmed(entries[i].1) == entries[i].1,
        entries[i].1.len() > 0,
{
    crate::text::lemmaTextOrderTotal(entries[i].0, entries[j].0);
}

/// A program is chosen by its path, whatever its letter case, and not where no chosen path is its own.
pub proof fn lawProgramIsChosenByItsPath(selected: Seq<Seq<char>>, at: int, path: Seq<char>)
    ensures
        0 <= at < selected.len() && lowered(selected[at]) == lowered(path) ==> isSelected(selected, path),
        0 <= at < selected.len() ==> isSelected(selected, selected[at]),
        (forall|i: int| 0 <= i < selected.len() ==> lowered(#[trigger] selected[i]) != lowered(path))
            ==> !isSelected(selected, path),
{
}

} // verus!
