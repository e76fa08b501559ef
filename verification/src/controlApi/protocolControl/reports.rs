//! The validation reports that are remembered, by transaction.

use crate::controlApi::protocolControl::validation::{
    issueViews, IssueView, ValidationIssue, ValidatorId,
};
use crate::text::{copyText, equalText};
use vstd::prelude::*;

verus! {

/// How many transactions may have reports.
pub const maximumValidationReports: usize = 512;

/// What one validator found in one transaction.
#[derive(Debug)]
pub struct ValidationReport {
    pub transactionId: String,
    pub validatorId: ValidatorId,
    pub issues: Vec<ValidationIssue>,
    pub validatedAtMilliseconds: u64,
}

/// The mathematical value of a report.
pub struct ReportView {
    pub transactionId: Seq<char>,
    pub validatorId: ValidatorId,
    pub issues: Seq<IssueView>,
    pub validatedAtMilliseconds: u64,
}

impl View for ValidationReport {
    type V = ReportView;

    open spec fn view(&self) -> ReportView {
        ReportView {
            transactionId: self.transactionId@,
            validatorId: self.validatorId,
            issues: issueViews(self.issues@),
            validatedAtMilliseconds: self.validatedAtMilliseconds,
        }
    }
}

impl ValidationReport {
    /// An independent copy.
    pub fn copied(&self) -> (result: ValidationReport)
        ensures
            result@ == self@,
    {
        let mut issues: Vec<ValidationIssue> = Vec::new();
        let ghost all = issueViews(self.issues@);
        let mut i: usize = 0;
        while i < self.issues.len()
            invariant
                i <= self.issues.len(),
                all == issueViews(self.issues@),
                issueViews(issues@) == all.take(i as int),
            decreases self.issues.len() - i,
        {
            let ghost before = issues@;
            issues.push(
                ValidationIssue {
                    severity: self.issues[i].severity,
                    messageKey: copyText(self.issues[i].messageKey.as_str()),
                    line: self.issues[i].line,
                    column: self.issues[i].column,
                },
            );
            assert(issueViews(issues@) == issueViews(before).push(all[i as int]));
            i += 1;
            assert(issueViews(issues@) == all.take(i as int));
        }
        assert(all.take(i as int) == all);
        ValidationReport {
            transactionId: copyText(self.transactionId.as_str()),
            validatorId: self.validatorId,
            issues,
            validatedAtMilliseconds: self.validatedAtMilliseconds,
        }
    }
}

/// The values of reports.
pub open spec fn reportViews(reports: Seq<ValidationReport>) -> Seq<ReportView> {
    reports.map_values(|report: ValidationReport| report@)
}

/// The reports without those of a validator, in order.
pub open spec fn withoutValidator(reports: Seq<ReportView>, id: ValidatorId) -> Seq<ReportView>
    decreases reports.len(),
{
    if reports.len() == 0 {
        Seq::empty()
    } else {
        let before = withoutValidator(reports.drop_last(), id);
        if reports.last().validatorId == id {
            before
        } else {
            before.push(reports.last())
        }
    }
}

/// The reports of a transaction once a new one takes the place of its validator's last.
pub open spec fn reportReplaced(reports: Seq<ReportView>, report: ReportView) -> Seq<ReportView> {
    withoutValidator(reports, report.validatorId).push(report)
}

/// The time of the earliest report; the largest number where there is none.
pub open spec fn earliestReport(reports: Seq<ReportView>) -> u64
    decreases reports.len(),
{
    if reports.len() == 0 {
        u64::MAX
    } else {
        let before = earliestReport(reports.drop_last());
        if reports.last().validatedAtMilliseconds < before {
            reports.last().validatedAtMilliseconds
        } else {
            before
        }
    }
}

/// The reports of one transaction.
#[derive(Debug)]
pub struct TransactionReports {
    pub transactionId: String,
    pub reports: Vec<ValidationReport>,
}

/// A transaction's identifier and its reports.
pub type EntryView = (Seq<char>, Seq<ReportView>);

/// The values of entries.
pub open spec fn entryViews(entries: Seq<TransactionReports>) -> Seq<EntryView> {
    entries.map_values(
        |entry: TransactionReports| (entry.transactionId@, reportViews(entry.reports@)),
    )
}

/// The place of a transaction, or the length where it has no entry.
pub open spec fn entryIndex(entries: Seq<EntryView>, id: Seq<char>) -> int
    decreases entries.len(),
{
    if entries.len() == 0 || entries[0].0 == id {
        0
    } else {
        1 + entryIndex(entries.drop_first(), id)
    }
}

/// The entries with a report added to those of its transaction, which may be a new one.
pub open spec fn reportAdded(entries: Seq<EntryView>, report: ReportView) -> Seq<EntryView> {
    let at = entryIndex(entries, report.transactionId);
    if at < entries.len() {
        entries.update(at, (entries[at].0, reportReplaced(entries[at].1, report)))
    } else {
        entries.push((report.transactionId, reportReplaced(Seq::empty(), report)))
    }
}

/// The place of the entry with the earliest report; the first of several.
pub open spec fn oldestEntry(entries: Seq<EntryView>) -> int
    decreases entries.len(),
{
    if entries.len() <= 1 {
        0
    } else {
        let before = oldestEntry(entries.drop_last());
        if earliestReport(entries.last().1) < earliestReport(entries[before].1) {
            entries.len() - 1
        } else {
            before
        }
    }
}

/// The entries that stay: while there are too many, the one with the earliest report goes.
pub open spec fn trimmedEntries(entries: Seq<EntryView>) -> Seq<EntryView>
    decreases entries.len(),
{
    if entries.len() <= maximumValidationReports {
        entries
    } else {
        let at = oldestEntry(entries);
        if 0 <= at < entries.len() {
            trimmedEntries(entries.remove(at))
        } else {
            entries
        }
    }
}

proof fn lemmaOldestEntry(entries: Seq<EntryView>)
    requires
        entries.len() > 0,
    ensures
        0 <= oldestEntry(entries) < entries.len(),
        forall|i: int|
            0 <= i < entries.len() ==> earliestReport(entries[oldestEntry(entries)].1)
                <= earliestReport((#[trigger] entries[i]).1),
    decreases entries.len(),
{
    if entries.len() > 1 {
        let before = entries.drop_last();
        lemmaOldestEntry(before);
        assert forall|i: int| 0 <= i < before.len() implies #[trigger] entries[i]
            == before[i] by {}
    }
}

proof fn lemmaEntryIndex(entries: Seq<EntryView>, id: Seq<char>)
    ensures
        0 <= entryIndex(entries, id) <= entries.len(),
        entryIndex(entries, id) < entries.len() ==> entries[entryIndex(entries, id)].0 == id,
        entryIndex(entries, id) == entries.len() ==> forall|i: int|
            0 <= i < entries.len() ==> (#[trigger] entries[i]).0 != id,
    decreases entries.len(),
{
    if entries.len() > 0 && entries[0].0 != id {
        let rest = entries.drop_first();
        lemmaEntryIndex(rest, id);
        assert forall|i: int|
            1 <= i < entries.len() implies #[trigger] entries[i] == rest[i - 1] by {}
    }
}

proof fn lemmaWithoutValidator(reports: Seq<ReportView>, id: ValidatorId)
    ensures
        forall|i: int|
            0 <= i < withoutValidator(reports, id).len() ==> (#[trigger] withoutValidator(
                reports,
                id,
            )[i]).validatorId != id,
    decreases reports.len(),
{
    if reports.len() > 0 {
        lemmaWithoutValidator(reports.drop_last(), id);
    }
}

/// A new report is the only one of its validator, and the last.
pub proof fn lawReportReplacesItsPredecessor(reports: Seq<ReportView>, report: ReportView)
    ensures
        reportReplaced(reports, report).last() == report,
        forall|i: int|
            0 <= i < reportReplaced(reports, report).len() - 1 ==> (#[trigger] reportReplaced(
                reports,
                report,
            )[i]).validatorId != report.validatorId,
{
    lemmaWithoutValidator(reports, report.validatorId);
}

/// No more than the largest number of transactions have reports, none goes without need, and none that
/// goes has a later first report than one that stays.
pub proof fn lawReportsAreBounded(entries: Seq<EntryView>)
    ensures
        trimmedEntries(entries).len() == if entries.len() <= maximumValidationReports {
            entries.len()
        } else {
            maximumValidationReports as nat
        },
        entries.len() <= maximumValidationReports ==> trimmedEntries(entries) == entries,
        forall|kept: EntryView| #[trigger]
            trimmedEntries(entries).contains(kept) ==> entries.contains(kept),
        forall|gone: EntryView, kept: EntryView|
            #![trigger entries.contains(gone), trimmedEntries(entries).contains(kept)]
            entries.contains(gone) && !trimmedEntries(entries).contains(gone) && trimmedEntries(
                entries,
            ).contains(kept) ==> earliestReport(gone.1) <= earliestReport(kept.1),
    decreases entries.len(),
{
    if entries.len() > maximumValidationReports {
        lemmaOldestEntry(entries);
        let at = oldestEntry(entries);
        let rest = entries.remove(at);
        let stay = trimmedEntries(entries);
        lawReportsAreBounded(rest);
        assert forall|kept: EntryView| #[trigger] stay.contains(kept) implies entries.contains(
            kept,
        ) by {
            assert(rest.contains(kept));
            let k = choose|k: int| 0 <= k < rest.len() && rest[k] == kept;
            assert(entries[if k < at { k } else { k + 1 }] == kept);
        }
        assert forall|gone: EntryView, kept: EntryView|
            #![trigger entries.contains(gone), stay.contains(kept)]
            entries.contains(gone) && !stay.contains(gone) && stay.contains(
                kept,
            ) implies earliestReport(gone.1) <= earliestReport(kept.1) by {
            let k = choose|k: int| 0 <= k < entries.len() && entries[k] == gone;
            if k == at {
                assert(entries.contains(kept));
                let m = choose|m: int| 0 <= m < entries.len() && entries[m] == kept;
                assert(earliestReport(entries[at].1) <= earliestReport(entries[m].1));
            } else {
                assert(rest[if k < at { k } else { k - 1 }] == gone);
                assert(rest.contains(gone));
            }
        }
    }
}

/// The reports of the service.
#[derive(Debug)]
pub struct ValidationReports {
    pub entries: Vec<TransactionReports>,
}

impl View for ValidationReports {
    type V = Seq<EntryView>;

    open spec fn view(&self) -> Seq<EntryView> {
        entryViews(self.entries@)
    }
}

impl ValidationReports {
    /// No reports.
    pub fn new() -> (result: ValidationReports)
        ensures
            result@.len() == 0,
    {
        ValidationReports { entries: Vec::new() }
    }

    fn find(&self, transactionId: &str) -> (result: usize)
        ensures
            result == entryIndex(self@, transactionId@),
            result <= self.entries@.len(),
    {
        let ghost all = self@;
        let mut i: usize = 0;
        assert(all.skip(0) == all);
        while i < self.entries.len() && !equalText(
            self.entries[i].transactionId.as_str(),
            transactionId,
        )
            invariant
                i <= self.entries.len(),
                all == entryViews(self.entries@),
                entryIndex(all, transactionId@) == i + entryIndex(
                    all.skip(i as int),
                    transactionId@,
                ),
            decreases self.entries.len() - i,
        {
            assert(all.skip(i as int)[0].0 == self.entries@[i as int].transactionId@);
            assert(all.skip(i as int).drop_first() == all.skip(i + 1));
            i += 1;
        }
        if i < self.entries.len() {
            assert(all.skip(i as int)[0].0 == self.entries@[i as int].transactionId@);
        }
        i
    }

    /// The reports of a transaction; none where it was never validated.
    pub fn validationReports(&self, transactionId: &str) -> (result: Vec<ValidationReport>)
        ensures
            reportViews(result@) == if entryIndex(self@, transactionId@) < self@.len() {
                self@[entryIndex(self@, transactionId@)].1
            } else {
                Seq::empty()
            },
    {
        let at: usize = self.find(transactionId);
        let mut result: Vec<ValidationReport> = Vec::new();
        if at < self.entries.len() {
            let reports = &self.entries[at].reports;
            let ghost all = reportViews(reports@);
            let mut i: usize = 0;
            while i < reports.len()
                invariant
                    i <= reports.len(),
                    all == reportViews(reports@),
                    reportViews(result@) == all.take(i as int),
                decreases reports.len() - i,
            {
                let ghost before = result@;
                result.push(reports[i].copied());
                assert(reportViews(result@) == reportViews(before).push(all[i as int]));
                i += 1;
                assert(reportViews(result@) == all.take(i as int));
            }
            assert(all.take(i as int) == all);
        } else {
            assert(reportViews(result@) == Seq::<ReportView>::empty());
        }
        result
    }

    /// Remembers a report.
    pub fn store(&mut self, report: ValidationReport)
        ensures
            final(self)@ == trimmedEntries(reportAdded(old(self)@, report@)),
    {
        let ghost all = self@;
        let ghost added = report@;
        let at: usize = self.find(report.transactionId.as_str());
        if at < self.entries.len() {
            let entry = self.entries.remove(at);
            let ghost previous = reportViews(entry.reports@);
            let reports = replaceReport(entry.reports, report);
            self.entries.insert(
                at,
                TransactionReports { transactionId: entry.transactionId, reports },
            );
            assert(self@ == all.update(
                at as int,
                (all[at as int].0, reportReplaced(all[at as int].1, added)),
            ));
        } else {
            let transactionId = copyText(report.transactionId.as_str());
            let none: Vec<ValidationReport> = Vec::new();
            assert(reportViews(none@) == Seq::<ReportView>::empty());
            let reports = replaceReport(none, report);
            self.entries.push(TransactionReports { transactionId, reports });
            assert(self@ == all.push(
                (added.transactionId, reportReplaced(Seq::empty(), added)),
            ));
        }
        self.trimValidationReports();
    }

    fn trimValidationReports(&mut self)
        ensures
            final(self)@ == trimmedEntries(old(self)@),
    {
        let ghost wanted = trimmedEntries(self@);
        while self.entries.len() > maximumValidationReports
            invariant
                wanted == trimmedEntries(self@),
                wanted == trimmedEntries(old(self)@),
            decreases self.entries.len(),
        {
            let ghost all = self@;
            proof {
                lemmaOldestEntry(all);
            }
            let at: usize = self.findOldest();
            let _ = self.entries.remove(at);
            assert(self@ == all.remove(at as int));
        }
    }

    fn findOldest(&self) -> (result: usize)
        requires
            self.entries.len() > 0,
        ensures
            result == oldestEntry(self@),
            result < self.entries.len(),
    {
        let ghost all = self@;
        let mut best: usize = 0;
        let mut bestTime: u64 = earliest(&self.entries[0].reports);
        let mut i: usize = 1;
        assert(oldestEntry(all.take(1)) == 0);
        while i < self.entries.len()
            invariant
                1 <= i <= self.entries.len(),
                all == entryViews(self.entries@),
                best < i,
                best == oldestEntry(all.take(i as int)),
                bestTime == earliestReport(all[best as int].1),
            decreases self.entries.len() - i,
        {
            assert(all.take(i + 1).drop_last() == all.take(i as int));
            assert(all.take(i + 1).last() == all[i as int]);
            assert(all.take(i + 1)[best as int] == all[best as int]);
            let time: u64 = earliest(&self.entries[i].reports);
            if time < bestTime {
                best = i;
                bestTime = time;
            }
            i += 1;
        }
        assert(all.take(i as int) == all);
        best
    }
}

fn earliest(reports: &Vec<ValidationReport>) -> (result: u64)
    ensures
        result == earliestReport(reportViews(reports@)),
{
    let ghost all = reportViews(reports@);
    let mut time: u64 = u64::MAX;
    let mut i: usize = 0;
    assert(all.take(0).len() == 0);
    while i < reports.len()
        invariant
            i <= reports.len(),
            all == reportViews(reports@),
            time == earliestReport(all.take(i as int)),
        decreases reports.len() - i,
    {
        assert(all.take(i + 1).drop_last() == all.take(i as int));
        assert(all.take(i + 1).last() == reports@[i as int]@);
        if reports[i].validatedAtMilliseconds < time {
            time = reports[i].validatedAtMilliseconds;
        }
        i += 1;
    }
    assert(all.take(i as int) == all);
    time
}

fn replaceReport(reports: Vec<ValidationReport>, report: ValidationReport) -> (result: Vec<
    ValidationReport,
>)
    ensures
        reportViews(result@) == reportReplaced(reportViews(reports@), report@),
{
    let ghost all = reportViews(reports@);
    let ghost added = report@;
    let id = report.validatorId;
    let mut result: Vec<ValidationReport> = Vec::new();
    let mut i: usize = 0;
    assert(all.take(0).len() == 0);
    assert(reportViews(result@) == withoutValidator(all.take(0), id));
    while i < reports.len()
        invariant
            i <= reports.len(),
            all == reportViews(reports@),
            reportViews(result@) == withoutValidator(all.take(i as int), id),
        decreases reports.len() - i,
    {
        assert(all.take(i + 1).drop_last() == all.take(i as int));
        assert(all.take(i + 1).last() == reports@[i as int]@);
        if reports[i].validatorId != id {
            let ghost before = result@;
            result.push(reports[i].copied());
            assert(reportViews(result@) == reportViews(before).push(all[i as int]));
        }
        i += 1;
    }
    assert(all.take(i as int) == all);
    let ghost before = result@;
    result.push(report);
    assert(reportViews(result@) == reportViews(before).push(added));
    result
}

/// A report that is stored is found under its transaction, as the last of its reports; what is known of other
/// transactions stays as it was.
pub proof fn lawStoredReportIsFound(entries: Seq<EntryView>, report: ReportView, other: Seq<char>)
    ensures
        ({
            let added = reportAdded(entries, report);
            let at = entryIndex(added, report.transactionId);
            &&& 0 <= at < added.len()
            &&& added[at].0 == report.transactionId
            &&& added[at].1.len() > 0 && added[at].1.last() == report
            &&& other != report.transactionId ==> {
                let before = entryIndex(entries, other);
                let now = entryIndex(added, other);
                &&& (before < entries.len()) == (now < added.len())
                &&& before < entries.len() ==> added[now] == entries[before]
            }
        }),
{
    let added = reportAdded(entries, report);
    lemmaEntryPlace(entries, report.transactionId);
    lemmaEntryPlace(added, report.transactionId);
    lemmaEntryPlace(entries, other);
    lemmaEntryPlace(added, other);
    let at = entryIndex(entries, report.transactionId);
    assert(added[at].0 == report.transactionId);
    let now = entryIndex(added, report.transactionId);
    if now < at {
        assert(added[now] == entries[now]);
        assert(entries[now].0 != report.transactionId);
    }
    if at < now {
        assert(added[at].0 != report.transactionId);
    }
    if other != report.transactionId {
        let before = entryIndex(entries, other);
        let after = entryIndex(added, other);
        if before < entries.len() {
            assert(added[before] == entries[before]);
            if after < before {
                assert(entries[after].0 != other);
                assert(added[after].0 == entries[after].0);
            }
            if before < after {
                assert(added[before].0 != other);
            }
        } else if after < added.len() {
            if after < entries.len() {
                assert(added[after].0 == entries[after].0);
                assert(entries[after].0 != other);
            }
        }
    }
}

proof fn lemmaEntryPlace(entries: Seq<EntryView>, id: Seq<char>)
    ensures
        0 <= entryIndex(entries, id) <= entries.len(),
        entryIndex(entries, id) < entries.len() ==> entries[entryIndex(entries, id)].0 == id,
        forall|j: int| 0 <= j < entryIndex(entries, id) ==> (#[trigger] entries[j]).0 != id,
    decreases entries.len(),
{
    if entries.len() > 0 && entries[0].0 != id {
        let rest = entries.drop_first();
        lemmaEntryPlace(rest, id);
        assert forall|j: int| 0 <= j < entryIndex(entries, id) implies (#[trigger] entries[j]).0
            != id by {
            if j > 0 {
                assert(rest[j - 1] == entries[j]);
            }
        }
    }
}

/// A new report takes the place of the one by the same validator alone: the reports of the other validators
/// stay, in their order.
pub proof fn lawReportsOfOtherValidatorsStay(reports: Seq<ReportView>, report: ReportView, kept: ReportView)
    ensures
        kept.validatorId != report.validatorId && reports.contains(kept) ==> reportReplaced(
            reports,
            report,
        ).contains(kept),
        reportReplaced(reports, report).contains(kept) ==> kept == report || reports.contains(kept),
    decreases reports.len(),
{
    let result = reportReplaced(reports, report);
    assert(result.last() == report);
    lemmaOtherReports(reports, report.validatorId, kept);
    let others = withoutValidator(reports, report.validatorId);
    if others.contains(kept) {
        let k = choose|k: int| 0 <= k < others.len() && others[k] == kept;
        assert(result[k] == kept);
    }
    if result.contains(kept) && kept != report {
        let k = choose|k: int| 0 <= k < result.len() && result[k] == kept;
        assert(others[k] == kept);
        assert(others.contains(kept));
    }
}

proof fn lemmaOtherReports(reports: Seq<ReportView>, id: ValidatorId, kept: ReportView)
    ensures
        withoutValidator(reports, id).contains(kept) <==> reports.contains(kept)
            && kept.validatorId != id,
    decreases reports.len(),
{
    if reports.len() > 0 {
        let shorter = reports.drop_last();
        let before = withoutValidator(shorter, id);
        let all = withoutValidator(reports, id);
        lemmaOtherReports(shorter, id, kept);
        if reports.contains(kept) {
            let k = choose|k: int| 0 <= k < reports.len() && reports[k] == kept;
            if k < shorter.len() {
                assert(shorter[k] == kept);
                assert(shorter.contains(kept));
            }
        }
        if shorter.contains(kept) {
            let k = choose|k: int| 0 <= k < shorter.len() && shorter[k] == kept;
            assert(reports[k] == kept);
        }
        if before.contains(kept) {
            let k = choose|k: int| 0 <= k < before.len() && before[k] == kept;
            assert(all[k] == kept);
        }
        if all.contains(kept) {
            let k = choose|k: int| 0 <= k < all.len() && all[k] == kept;
            if k < before.len() {
                assert(before[k] == kept);
                assert(before.contains(kept));
            } else {
                assert(reports[reports.len() - 1] == kept);
            }
        }
        if reports.last() == kept && kept.validatorId != id {
            assert(all[all.len() - 1] == kept);
            assert(reports[reports.len() - 1] == kept);
        }
    }
}

/// The earliest time of reports is the time of one of them, and none is earlier.
pub proof fn lawEarliestReportIsTheEarliest(reports: Seq<ReportView>)
    requires
        reports.len() > 0,
    ensures
        forall|i: int|
            0 <= i < reports.len() ==> earliestReport(reports) <= (
            #[trigger] reports[i]).validatedAtMilliseconds,
        exists|i: int|
            0 <= i < reports.len() && earliestReport(reports) == (
            #[trigger] reports[i]).validatedAtMilliseconds,
    decreases reports.len(),
{
    let shorter = reports.drop_last();
    assert(reports[reports.len() - 1] == reports.last());
    if shorter.len() > 0 {
        lawEarliestReportIsTheEarliest(shorter);
        assert forall|i: int| 0 <= i < reports.len() implies earliestReport(reports) <= (
        #[trigger] reports[i]).validatedAtMilliseconds by {
            if i < shorter.len() {
                assert(shorter[i] == reports[i]);
            }
        }
        let k = choose|k: int|
            0 <= k < shorter.len() && earliestReport(shorter) == (
            #[trigger] shorter[k]).validatedAtMilliseconds;
        assert(reports[k] == shorter[k]);
    } else {
        assert(earliestReport(shorter) == u64::MAX);
    }
}

} // verus!
