//! The vulnerability scanner: matches every package of a snapshot against the
//! advisories that declare its name and gathers the findings in a report.

use crate::advisory::{
    affected, concerns, is_version_affected, lemma_positions_sound, lemma_positions_step, positions_of,
    positions_upto, AdvisoryIndex, AdvisoryModel, AdvisoryRecord,
};
use crate::ranges::in_any_range;
use crate::seqs::lemma_filter_push;
use crate::snapshot::{LockSnapshot, Package, PackageModel};
use crate::text::{copy_optional_text, copy_texts, join_texts, join_with, same_text, to_uppercase, uppercased};
use vstd::prelude::*;

verus! {

/// The report of one scan.
#[derive(Debug, Clone, PartialEq, Eq)]
pub struct VulnReport {
    pub total_packages: usize,
    pub packages: Vec<PackageReport>,
    pub summary: Summary,
}

/// The findings of one package. A report holds such an entry only for a
/// package with at least one finding.
#[derive(Debug, Clone, PartialEq, Eq)]
pub struct PackageReport {
    pub package_name: String,
    pub package_version: String,
    pub advisories: Vec<AdvisoryFinding>,
}

/// One advisory that affects one package.
#[derive(Debug, Clone, PartialEq, Eq)]
pub struct AdvisoryFinding {
    pub id: String,
    pub description: String,
    pub severity: Option<String>,
    pub unaffected_versions: String,
    pub patched_versions: Option<String>,
    pub references: Vec<String>,
}

/// The totals of a report.
#[derive(Debug, Clone, Copy, PartialEq, Eq, Structural)]
pub struct Summary {
    pub total_vulnerabilities: usize,
    pub by_severity: SeverityCounts,
}

/// How many findings fall under each severity.
#[derive(Debug, Clone, Copy, PartialEq, Eq, Structural)]
pub struct SeverityCounts {
    pub critical: usize,
    pub high: usize,
    pub medium: usize,
    pub low: usize,
    pub unknown: usize,
}

/// The severity under which a finding is counted.
#[derive(Debug, Clone, Copy, PartialEq, Eq, Structural)]
pub enum Severity {
    Critical,
    High,
    Medium,
    Low,
    Unknown,
}

/// What an `AdvisoryFinding` holds, as mathematical values.
#[verifier::ext_equal]
pub struct FindingModel {
    pub id: Seq<char>,
    pub description: Seq<char>,
    pub severity: Option<Seq<char>>,
    pub unaffected_versions: Seq<char>,
    pub patched_versions: Option<Seq<char>>,
    pub references: Seq<Seq<char>>,
}

/// What a `PackageReport` holds, as mathematical values.
#[verifier::ext_equal]
pub struct PackageReportModel {
    pub package_name: Seq<char>,
    pub package_version: Seq<char>,
    pub advisories: Seq<FindingModel>,
}

impl View for AdvisoryFinding {
    type V = FindingModel;

    open spec fn view(&self) -> FindingModel {
        FindingModel {
            id: self.id@,
            description: self.description@,
            severity: self.severity.deep_view(),
            unaffected_versions: self.unaffected_versions@,
            patched_versions: self.patched_versions.deep_view(),
            references: self.references.deep_view(),
        }
    }
}

impl DeepView for AdvisoryFinding {
    type V = FindingModel;

    open spec fn deep_view(&self) -> FindingModel {
        self@
    }
}

impl View for PackageReport {
    type V = PackageReportModel;

    open spec fn view(&self) -> PackageReportModel {
        PackageReportModel {
            package_name: self.package_name@,
            package_version: self.package_version@,
            advisories: self.advisories.deep_view(),
        }
    }
}

impl DeepView for PackageReport {
    type V = PackageReportModel;

    open spec fn deep_view(&self) -> PackageReportModel {
        self@
    }
}

impl Default for SeverityCounts {
    fn default() -> (counts: SeverityCounts)
        ensures
            counts == (SeverityCounts { critical: 0, high: 0, medium: 0, low: 0, unknown: 0 }),
    {
        SeverityCounts { critical: 0, high: 0, medium: 0, low: 0, unknown: 0 }
    }
}

impl Default for Summary {
    fn default() -> (summary: Summary)
        ensures
            summary == (Summary {
                total_vulnerabilities: 0,
                by_severity: SeverityCounts { critical: 0, high: 0, medium: 0, low: 0, unknown: 0 },
            }),
    {
        Summary { total_vulnerabilities: 0, by_severity: SeverityCounts::default() }
    }
}

/// The severity that an upper-cased label names. Any label but the four
/// known ones counts as unknown.
pub open spec fn severity_of_upper(upper: Seq<char>) -> Severity {
    if upper == "CRITICAL"@ {
        Severity::Critical
    } else if upper == "HIGH"@ {
        Severity::High
    } else if upper == "MEDIUM"@ {
        Severity::Medium
    } else if upper == "LOW"@ {
        Severity::Low
    } else {
        Severity::Unknown
    }
}

/// The severity under which a finding with this label is counted: the label
/// is upper-cased first, and a missing label counts as unknown.
pub open spec fn severity_of(label: Option<Seq<char>>) -> Severity {
    match label {
        Some(text) => severity_of_upper(uppercased(text)),
        None => Severity::Unknown,
    }
}

/// The finding that an advisory gives rise to.
pub open spec fn finding_of(advisory: AdvisoryModel) -> FindingModel {
    FindingModel {
        id: advisory.id,
        description: advisory.description,
        severity: advisory.severity,
        unaffected_versions: join_with(advisory.unaffected, ", "@),
        patched_versions: if advisory.patched.len() == 0 {
            None
        } else {
            Some(join_with(advisory.patched, ", "@))
        },
        references: advisory.references,
    }
}

/// The severity that an upper-cased label names.
pub fn classify_upper(upper: &str) -> (severity: Severity)
    ensures
        severity == severity_of_upper(upper@),
{
    if same_text(upper, "CRITICAL") {
        Severity::Critical
    } else if same_text(upper, "HIGH") {
        Severity::High
    } else if same_text(upper, "MEDIUM") {
        Severity::Medium
    } else if same_text(upper, "LOW") {
        Severity::Low
    } else {
        Severity::Unknown
    }
}

/// The severity under which a finding with this label is counted.
pub fn classify(label: &Option<String>) -> (severity: Severity)
    ensures
        severity == severity_of(label.deep_view()),
{
    match label {
        Some(text) => {
            let upper = to_uppercase(text.as_str());
            classify_upper(upper.as_str())
        },
        None => Severity::Unknown,
    }
}

/// Writes the finding for an advisory that affects a package: the ranges are
/// joined with a comma and a space, and an advisory without patched ranges
/// gives a finding without patched versions.
pub fn create_advisory_finding(advisory: &AdvisoryRecord) -> (finding: AdvisoryFinding)
    ensures
        finding@ == finding_of(advisory@),
{
    let unaffected_versions = join_texts(&advisory.unaffected, ", ");
    let patched_versions = if advisory.patched.len() > 0 {
        Some(join_texts(&advisory.patched, ", "))
    } else {
        None
    };
    AdvisoryFinding {
        id: advisory.id.clone(),
        description: advisory.description.clone(),
        severity: copy_optional_text(&advisory.severity),
        unaffected_versions,
        patched_versions,
        references: copy_texts(&advisory.references),
    }
}

/// Some actionable advisory of the database declares the name.
pub open spec fn is_declared(db: Seq<AdvisoryModel>, name: Seq<char>) -> bool {
    exists|i: int| 0 <= i < db.len() && concerns(#[trigger] db[i], name)
}

/// The advisory gives the package a finding: it concerns the name of the
/// package and affects its version.
pub open spec fn hits(advisory: AdvisoryModel, package: PackageModel) -> bool {
    concerns(advisory, package.name) && affected(package.version, advisory)
}

/// The findings of a package: one for each advisory of the database that
/// hits it, in the order of the database.
pub open spec fn findings_for(db: Seq<AdvisoryModel>, package: PackageModel) -> Seq<FindingModel> {
    db.filter(|advisory: AdvisoryModel| hits(advisory, package)).map_values(
        |advisory: AdvisoryModel| finding_of(advisory),
    )
}

/// The report entry of a package.
pub open spec fn report_of(db: Seq<AdvisoryModel>, package: PackageModel) -> PackageReportModel {
    PackageReportModel {
        package_name: package.name,
        package_version: package.version,
        advisories: findings_for(db, package),
    }
}

/// The report entries of the packages, in their order, without the packages
/// that have no finding. Each package is judged by its own version, also
/// where several packages share a name.
pub open spec fn reports_for(db: Seq<AdvisoryModel>, packages: Seq<PackageModel>) -> Seq<
    PackageReportModel,
> {
    packages.map_values(|package: PackageModel| report_of(db, package)).filter(
        |entry: PackageReportModel| entry.advisories.len() > 0,
    )
}

/// How many of the findings are counted under `severity`.
pub open spec fn count_severity(findings: Seq<FindingModel>, severity: Severity) -> nat {
    findings.filter(|finding: FindingModel| severity_of(finding.severity) == severity).len()
}

/// How many findings of all the entries are counted under `severity`.
pub open spec fn count_severity_in(reports: Seq<PackageReportModel>, severity: Severity) -> nat
    decreases reports.len(),
{
    if reports.len() == 0 {
        0
    } else {
        count_severity_in(reports.drop_last(), severity) + count_severity(
            reports.last().advisories,
            severity,
        )
    }
}

/// How many findings the entries hold together.
pub open spec fn total_findings(reports: Seq<PackageReportModel>) -> nat
    decreases reports.len(),
{
    if reports.len() == 0 {
        0
    } else {
        total_findings(reports.drop_last()) + reports.last().advisories.len()
    }
}

/// The summary belongs to the entries: the total is the number of their
/// findings, and each count is the number of findings under that severity.
pub open spec fn summarizes(summary: Summary, reports: Seq<PackageReportModel>) -> bool {
    &&& summary.total_vulnerabilities == total_findings(reports)
    &&& summary.by_severity.tallies(reports)
}

/// The findings drawn from the advisories at `positions`, in that order.
spec fn findings_among(db: Seq<AdvisoryModel>, version: Seq<char>, positions: Seq<usize>) -> Seq<
    FindingModel,
>
    decreases positions.len(),
{
    if positions.len() == 0 {
        Seq::empty()
    } else {
        let earlier = findings_among(db, version, positions.drop_last());
        let advisory = db[positions.last() as int];
        if affected(version, advisory) {
            earlier.push(finding_of(advisory))
        } else {
            earlier
        }
    }
}

/// One more advisory adds its finding where it hits the package, and
/// nothing otherwise.
proof fn lemma_findings_step(db: Seq<AdvisoryModel>, advisory: AdvisoryModel, package: PackageModel)
    ensures
        findings_for(db.push(advisory), package) == if hits(advisory, package) {
            findings_for(db, package).push(finding_of(advisory))
        } else {
            findings_for(db, package)
        },
{
    lemma_filter_push(db, advisory, |advisory: AdvisoryModel| hits(advisory, package));
}

/// One more finding is counted under its own severity and under no other.
proof fn lemma_count_step(findings: Seq<FindingModel>, finding: FindingModel, severity: Severity)
    ensures
        count_severity(findings.push(finding), severity) == count_severity(findings, severity) + if severity_of(
            finding.severity,
        ) == severity {
            1nat
        } else {
            0nat
        },
{
    lemma_filter_push(
        findings,
        finding,
        |finding: FindingModel| severity_of(finding.severity) == severity,
    );
}

/// One more package adds its entry where it has a finding, and nothing
/// otherwise.
proof fn lemma_reports_step(db: Seq<AdvisoryModel>, packages: Seq<PackageModel>, package: PackageModel)
    ensures
        reports_for(db, packages.push(package)) == if findings_for(db, package).len() > 0 {
            reports_for(db, packages).push(report_of(db, package))
        } else {
            reports_for(db, packages)
        },
{
    let entries = packages.map_values(|package: PackageModel| report_of(db, package));
    assert(packages.push(package).map_values(|package: PackageModel| report_of(db, package))
        =~= entries.push(report_of(db, package)));
    lemma_filter_push(
        entries,
        report_of(db, package),
        |entry: PackageReportModel| entry.advisories.len() > 0,
    );
}

/// Going through the positions that concern the name of a package finds
/// what going through the whole database finds.
proof fn lemma_positions_find_all(db: Seq<AdvisoryModel>, package: PackageModel, n: int)
    requires
        0 <= n <= db.len() <= usize::MAX,
    ensures
        findings_among(db, package.version, positions_upto(db, package.name, n)) == findings_for(
            db.take(n),
            package,
        ),
    decreases n,
{
    if n > 0 {
        lemma_positions_find_all(db, package, n - 1);
        lemma_positions_step(db, package.name, n - 1);
        lemma_findings_step(db.take(n - 1), db[n - 1], package);
        assert(db.take(n) =~= db.take(n - 1).push(db[n - 1]));
        let earlier = positions_upto(db, package.name, n - 1);
        assert(earlier.push((n - 1) as usize).drop_last() =~= earlier);
    }
}

impl SeverityCounts {
    /// The count kept for `severity`.
    pub open spec fn of(self, severity: Severity) -> usize {
        match severity {
            Severity::Critical => self.critical,
            Severity::High => self.high,
            Severity::Medium => self.medium,
            Severity::Low => self.low,
            Severity::Unknown => self.unknown,
        }
    }

    /// The five counts added up.
    pub open spec fn sum(self) -> int {
        self.critical + self.high + self.medium + self.low + self.unknown
    }

    /// The counts are those of the findings in `reports`.
    pub open spec fn tallies(self, reports: Seq<PackageReportModel>) -> bool {
        forall|severity: Severity| #[trigger] self.of(severity) == count_severity_in(reports, severity)
    }

    /// Counts one more finding under `severity`.
    pub fn record(&mut self, severity: Severity)
        requires
            old(self).of(severity) < usize::MAX,
        ensures
            forall|other: Severity| #[trigger]
                final(self).of(other) == old(self).of(other) + if other == severity {
                    1int
                } else {
                    0int
                },
    {
        match severity {
            Severity::Critical => self.critical += 1,
            Severity::High => self.high += 1,
            Severity::Medium => self.medium += 1,
            Severity::Low => self.low += 1,
            Severity::Unknown => self.unknown += 1,
        }
    }

}

/// The severity of each of the findings, in their order.
pub open spec fn severities_of(findings: Seq<FindingModel>) -> Seq<Severity> {
    findings.map_values(|finding: FindingModel| severity_of(finding.severity))
}

/// Counts each of the findings under its severity and notes that severity at
/// the end of `seen`, the list of the severities counted so far. No count is
/// greater than the length of that list, and a list holds no more than
/// `usize::MAX` items: this is why counting needs no bound on the scan.
fn tally(counts: &mut SeverityCounts, seen: &mut Vec<Severity>, findings: &Vec<AdvisoryFinding>)
    requires
        forall|severity: Severity| #[trigger] old(counts).of(severity) <= old(seen).len(),
    ensures
        forall|severity: Severity| #[trigger]
            final(counts).of(severity) == old(counts).of(severity) + count_severity(
                findings.deep_view(),
                severity,
            ),
        final(seen)@ == old(seen)@ + severities_of(findings.deep_view()),
{
    let ghost all = findings.deep_view();
    let ghost start = *counts;
    let ghost noted = seen@;
    let mut k: usize = 0;
    while k < findings.len()
        invariant
            k <= findings.len(),
            all == findings.deep_view(),
            forall|severity: Severity| #[trigger] start.of(severity) <= noted.len(),
            forall|severity: Severity| #[trigger]
                counts.of(severity) == start.of(severity) + count_severity(all.take(k as int), severity),
            forall|severity: Severity| #[trigger] count_severity(all.take(k as int), severity) <= k,
            seen@ == noted + severities_of(all.take(k as int)),
        decreases findings.len() - k,
    {
        let severity = classify(&findings[k].severity);
        proof {
            assert(all.take(k + 1) =~= all.take(k as int).push(all[k as int]));
            assert forall|other: Severity| #[trigger]
                count_severity(all.take(k + 1), other) == count_severity(all.take(k as int), other)
                    + if other == severity {
                    1nat
                } else {
                    0nat
                } by {
                lemma_count_step(all.take(k as int), all[k as int], other);
            }
        }
        seen.push(severity);
        assert(counts.of(severity) < seen.len());
        counts.record(severity);
        k += 1;
    }
    assert(all.take(findings.len() as int) =~= all);
}

/// How many findings the entries hold together.
pub fn count_findings(reports: &Vec<PackageReport>) -> (total: usize)
    requires
        total_findings(reports.deep_view()) <= usize::MAX,
    ensures
        total == total_findings(reports.deep_view()),
{
    let ghost all = reports.deep_view();
    let mut total: usize = 0;
    let mut i: usize = 0;
    while i < reports.len()
        invariant
            i <= reports.len(),
            all == reports.deep_view(),
            total == total_findings(all.take(i as int)),
            total_findings(all) <= usize::MAX,
        decreases reports.len() - i,
    {
        proof {
            assert(all.take(i + 1).drop_last() =~= all.take(i as int));
            lemma_total_monotone(all, i + 1);
        }
        total += reports[i].advisories.len();
        i += 1;
    }
    assert(all.take(reports.len() as int) =~= all);
    total
}

/// The findings of a prefix of the entries are no more than those of all.
proof fn lemma_total_monotone(reports: Seq<PackageReportModel>, n: int)
    requires
        0 <= n <= reports.len(),
    ensures
        total_findings(reports.take(n)) <= total_findings(reports),
    decreases reports.len() - n,
{
    if n < reports.len() {
        lemma_total_monotone(reports, n + 1);
        assert(reports.take(n + 1).drop_last() =~= reports.take(n));
    } else {
        assert(reports.take(n) =~= reports);
    }
}

/// The scanner: an advisory database with its index.
pub struct Scanner {
    db: Vec<AdvisoryRecord>,
    index: AdvisoryIndex,
}

impl Scanner {
    #[verifier::type_invariant]
    spec fn indexed(self) -> bool {
        self.index.indexes(self.db.deep_view())
    }

    /// The advisories that the scanner was made with, in their order.
    pub closed spec fn database(&self) -> Seq<AdvisoryModel> {
        self.db.deep_view()
    }

    /// A scanner over the given advisories. The index is built here, once.
    pub fn new(db: Vec<AdvisoryRecord>) -> (scanner: Scanner)
        ensures
            scanner.database() == db.deep_view(),
    {
        let index = AdvisoryIndex::build(&db);
        Scanner { db, index }
    }

    /// How many advisories the database holds, withdrawn and informational
    /// ones included.
    pub fn advisory_count(&self) -> (count: usize)
        ensures
            count == self.database().len(),
    {
        self.db.len()
    }

    /// The findings of one package.
    pub fn scan_package(&self, package: &Package) -> (findings: Vec<AdvisoryFinding>)
        ensures
            findings.deep_view() == findings_for(self.database(), package@),
    {
        let ghost db = self.db.deep_view();
        let ghost version = package.version@;
        let mut findings: Vec<AdvisoryFinding> = Vec::new();
        proof {
            use_type_invariant(self);
            assert(db.len() == self.db.len());
            lemma_positions_find_all(db, package@, db.len() as int);
            assert(db.take(db.len() as int) =~= db);
        }
        match self.index.candidates(package.name.as_str()) {
            Some(group) => {
                let ghost positions = group@;
                proof {
                    lemma_positions_sound(db, package.name@, db.len() as int);
                }
                let mut k: usize = 0;
                while k < group.len()
                    invariant
                        k <= group.len(),
                        positions == group@,
                        db == self.db.deep_view(),
                        version == package.version@,
                        forall|j: int| 0 <= j < positions.len() ==> #[trigger] positions[j] < db.len(),
                        findings.deep_view() == findings_among(db, version, positions.take(k as int)),
                    decreases group.len() - k,
                {
                    let at = group[k];
                    let advisory = &self.db[at];
                    assert(positions.take(k + 1).drop_last() =~= positions.take(k as int));
                    if is_version_affected(package.version.as_str(), advisory) {
                        findings.push(create_advisory_finding(advisory));
                    }
                    k += 1;
                }
                assert(positions.take(group.len() as int) =~= positions);
            },
            None => {},
        }
        findings
    }

    /// Scans every package of the snapshot; no snapshot is refused and no
    /// package makes the scan fail. The report lists, in the order of the
    /// snapshot, each package that has a finding, with its findings in the
    /// order of the database; the severity counts are kept while the findings
    /// are gathered, and the total is taken from the finished list. Every
    /// name in the report is one that an actionable advisory declares.
    pub fn scan_lockfile(&self, lockfile: &LockSnapshot) -> (report: VulnReport)
        ensures
            report.total_packages == lockfile@.packages.len(),
            report.packages.deep_view() == reports_for(self.database(), lockfile@.packages),
            summarizes(report.summary, report.packages.deep_view()),
            report.summary.total_vulnerabilities == total_findings(report.packages.deep_view()),
            report.summary.by_severity.sum() == report.summary.total_vulnerabilities,
            forall|k: int|
                0 <= k < report.packages.len() ==> is_declared(
                    self.database(),
                    (#[trigger] report.packages[k]).package_name@,
                ),
    {
        let ghost db = self.db.deep_view();
        let ghost packages = lockfile@.packages;
        let mut package_reports: Vec<PackageReport> = Vec::new();
        let mut counts = SeverityCounts::default();
        let mut seen: Vec<Severity> = Vec::new();
        let mut i: usize = 0;
        while i < lockfile.packages.len()
            invariant
                i <= lockfile.packages.len(),
                db == self.database(),
                packages == lockfile@.packages,
                package_reports.deep_view() == reports_for(db, packages.take(i as int)),
                counts.tallies(package_reports.deep_view()),
                seen.len() == total_findings(package_reports.deep_view()),
            decreases lockfile.packages.len() - i,
        {
            let package = &lockfile.packages[i];
            let findings = self.scan_package(package);
            let ghost earlier = package_reports.deep_view();
            proof {
                assert(packages.take(i + 1) =~= packages.take(i as int).push(package@));
                lemma_reports_step(db, packages.take(i as int), package@);
                assert forall|severity: Severity| #[trigger] counts.of(severity) <= seen.len() by {
                    lemma_count_bounded(earlier, severity);
                }
            }
            tally(&mut counts, &mut seen, &findings);
            if findings.len() > 0 {
                let entry = PackageReport {
                    package_name: package.name.clone(),
                    package_version: package.version.clone(),
                    advisories: findings,
                };
                package_reports.push(entry);
                assert(package_reports.deep_view().drop_last() =~= earlier);
            }
            i += 1;
        }
        assert(packages.take(lockfile.packages.len() as int) =~= packages);
        let total = count_findings(&package_reports);
        let summary = Summary { total_vulnerabilities: total, by_severity: counts };
        proof {
            lemma_summary_consistent(summary, package_reports.deep_view());
            assert forall|k: int| 0 <= k < package_reports.len() implies is_declared(
                db,
                (#[trigger] package_reports[k]).package_name@,
            ) by {
                let name = package_reports[k].package_name@;
                assert(package_reports.deep_view()[k] == package_reports[k]@);
                if !is_declared(db, name) {
                    lemma_undeclared_name_is_not_reported(db, packages, name);
                }
            }
        }
        VulnReport { total_packages: lockfile.packages.len(), packages: package_reports, summary }
    }
}

/// Every finding is counted under exactly one severity.
pub proof fn lemma_severities_partition(findings: Seq<FindingModel>)
    ensures
        count_severity(findings, Severity::Critical) + count_severity(findings, Severity::High)
            + count_severity(findings, Severity::Medium) + count_severity(findings, Severity::Low)
            + count_severity(findings, Severity::Unknown) == findings.len(),
    decreases findings.len(),
{
    if findings.len() > 0 {
        let earlier = findings.drop_last();
        lemma_severities_partition(earlier);
        assert(findings =~= earlier.push(findings.last()));
        lemma_count_step(earlier, findings.last(), Severity::Critical);
        lemma_count_step(earlier, findings.last(), Severity::High);
        lemma_count_step(earlier, findings.last(), Severity::Medium);
        lemma_count_step(earlier, findings.last(), Severity::Low);
        lemma_count_step(earlier, findings.last(), Severity::Unknown);
    }
}

/// Over all entries of a report the severity counts add up to the number of
/// findings.
pub proof fn lemma_counts_add_up(reports: Seq<PackageReportModel>)
    ensures
        count_severity_in(reports, Severity::Critical) + count_severity_in(reports, Severity::High)
            + count_severity_in(reports, Severity::Medium) + count_severity_in(
            reports,
            Severity::Low,
        ) + count_severity_in(reports, Severity::Unknown) == total_findings(reports),
    decreases reports.len(),
{
    if reports.len() > 0 {
        lemma_counts_add_up(reports.drop_last());
        lemma_severities_partition(reports.last().advisories);
    }
}

/// A summary that belongs to a report has a total equal to the number of
/// findings in the entries, and its five severity counts add up to that
/// total.
pub proof fn lemma_summary_consistent(summary: Summary, reports: Seq<PackageReportModel>)
    requires
        summarizes(summary, reports),
    ensures
        summary.total_vulnerabilities == total_findings(reports),
        summary.by_severity.sum() == summary.total_vulnerabilities,
{
    lemma_counts_add_up(reports);
    let counts = summary.by_severity;
    assert(counts.of(Severity::Critical) == count_severity_in(reports, Severity::Critical));
    assert(counts.of(Severity::High) == count_severity_in(reports, Severity::High));
    assert(counts.of(Severity::Medium) == count_severity_in(reports, Severity::Medium));
    assert(counts.of(Severity::Low) == count_severity_in(reports, Severity::Low));
    assert(counts.of(Severity::Unknown) == count_severity_in(reports, Severity::Unknown));
}

/// No severity is counted more often than there are findings.
pub proof fn lemma_count_bounded(reports: Seq<PackageReportModel>, severity: Severity)
    ensures
        count_severity_in(reports, severity) <= total_findings(reports),
{
    lemma_counts_add_up(reports);
}

/// An advisory with a patched range that holds the version of a package
/// adds no finding for that package, whatever its unaffected ranges say.
pub proof fn lemma_patched_advisory_adds_no_finding(
    db: Seq<AdvisoryModel>,
    advisory: AdvisoryModel,
    package: PackageModel,
)
    requires
        in_any_range(advisory.patched, package.version),
    ensures
        findings_for(db.push(advisory), package) == findings_for(db, package),
{
    lemma_findings_step(db, advisory, package);
}

/// A package whose name no actionable advisory declares has no findings.
pub proof fn lemma_undeclared_package_has_no_findings(db: Seq<AdvisoryModel>, package: PackageModel)
    requires
        forall|i: int| 0 <= i < db.len() ==> !concerns(#[trigger] db[i], package.name),
    ensures
        findings_for(db, package) == Seq::<FindingModel>::empty(),
    decreases db.len(),
{
    if db.len() > 0 {
        let earlier = db.drop_last();
        lemma_undeclared_package_has_no_findings(earlier, package);
        lemma_findings_step(earlier, db.last(), package);
        assert(db =~= earlier.push(db.last()));
    }
}

/// A package for whose name the index of the database has no group has no
/// findings.
pub proof fn lemma_unindexed_package_has_no_findings(
    index: AdvisoryIndex,
    db: Seq<AdvisoryModel>,
    package: PackageModel,
)
    requires
        db.len() <= usize::MAX,
        index.indexes(db),
        !index.has(package.name),
    ensures
        findings_for(db, package) == Seq::<FindingModel>::empty(),
{
    lemma_positions_find_all(db, package, db.len() as int);
    assert(db.take(db.len() as int) =~= db);
}

/// Every entry of a report stands for a package of the snapshot and holds at
/// least one finding.
pub proof fn lemma_entries_have_findings(db: Seq<AdvisoryModel>, packages: Seq<PackageModel>)
    ensures
        reports_for(db, packages).len() <= packages.len(),
        forall|k: int|
            0 <= k < reports_for(db, packages).len() ==> {
                &&& (#[trigger] reports_for(db, packages)[k]).advisories.len() > 0
                &&& exists|i: int|
                    0 <= i < packages.len() && reports_for(db, packages)[k] == report_of(
                        db,
                        #[trigger] packages[i],
                    )
            },
    decreases packages.len(),
{
    if packages.len() > 0 {
        let shorter = packages.drop_last();
        lemma_entries_have_findings(db, shorter);
        lemma_reports_step(db, shorter, packages.last());
        assert(packages =~= shorter.push(packages.last()));
    }
}

/// A name that no actionable advisory declares occurs in no entry of the
/// report.
pub proof fn lemma_undeclared_name_is_not_reported(
    db: Seq<AdvisoryModel>,
    packages: Seq<PackageModel>,
    name: Seq<char>,
)
    requires
        forall|i: int| 0 <= i < db.len() ==> !concerns(#[trigger] db[i], name),
    ensures
        forall|k: int|
            0 <= k < reports_for(db, packages).len() ==> (#[trigger] reports_for(
                db,
                packages,
            )[k]).package_name != name,
{
    lemma_entries_have_findings(db, packages);
    let reports = reports_for(db, packages);
    assert forall|k: int| 0 <= k < reports.len() implies (#[trigger] reports[k]).package_name
        != name by {
        let i = choose|i: int|
            0 <= i < packages.len() && reports[k] == report_of(db, #[trigger] packages[i]);
        if packages[i].name == name {
            lemma_undeclared_package_has_no_findings(db, packages[i]);
        }
    }
}

/// With an empty advisory database the report of any snapshot has no entry
/// and no finding.
pub proof fn lemma_empty_database_reports_nothing(packages: Seq<PackageModel>)
    ensures
        reports_for(Seq::<AdvisoryModel>::empty(), packages) == Seq::<PackageReportModel>::empty(),
        total_findings(reports_for(Seq::<AdvisoryModel>::empty(), packages)) == 0,
{
    let db = Seq::<AdvisoryModel>::empty();
    lemma_entries_have_findings(db, packages);
    let reports = reports_for(db, packages);
    if reports.len() > 0 {
        let i = choose|i: int|
            0 <= i < packages.len() && reports[0] == report_of(db, #[trigger] packages[i]);
    }
}

} // verus!
