use vstd::prelude::*;
use crate::issue::{issue_views, text_of, ReportedIssue, ReportedIssueView};
use crate::severity::Severity;
use crate::text::texts;

verus! {

/// An issue as the report shows it.
#[derive(Clone, Debug, PartialEq, Eq)]
pub struct Issue {
    pub file_path: String,
    pub start_line: Option<u64>,
    pub end_line: Option<u64>,
    pub severity: Severity,
    pub category: String,
    pub title: String,
    pub description: String,
    pub suggestion: Option<String>,
    pub code_snippet: Option<String>,
}

/// The mathematical value of an [`Issue`].
pub struct IssueView {
    pub file_path: Seq<char>,
    pub start_line: Option<u64>,
    pub end_line: Option<u64>,
    pub severity: Severity,
    pub category: Seq<char>,
    pub title: Seq<char>,
    pub description: Seq<char>,
    pub suggestion: Option<Seq<char>>,
    pub code_snippet: Option<Seq<char>>,
}

impl View for Issue {
    type V = IssueView;

    open spec fn view(&self) -> IssueView {
        IssueView {
            file_path: self.file_path@,
            start_line: self.start_line,
            end_line: self.end_line,
            severity: self.severity,
            category: self.category@,
            title: self.title@,
            description: self.description@,
            suggestion: text_of(self.suggestion),
            code_snippet: text_of(self.code_snippet),
        }
    }
}

/// The values of a list of issues.
pub open spec fn views_of(issues: Seq<Issue>) -> Seq<IssueView> {
    issues.map_values(|i: Issue| i@)
}

/// The issue of the report that a reported issue becomes: the same
/// finding, with its line as the first line, and without a last line or a
/// code snippet.
pub open spec fn shown(r: ReportedIssueView) -> IssueView {
    IssueView {
        file_path: r.file_path,
        start_line: r.line_number,
        end_line: None,
        severity: r.severity,
        category: r.category,
        title: r.title,
        description: r.description,
        suggestion: r.suggestion,
        code_snippet: None,
    }
}

fn copy_optional_text(s: &Option<String>) -> (r: Option<String>)
    ensures
        text_of(r) == text_of(*s),
{
    match s {
        Some(t) => Some(t.clone()),
        None => None,
    }
}

impl Issue {
    /// Turns a reported issue into an issue of the report.
    pub fn from_reported(r: &ReportedIssue) -> (i: Issue)
        ensures
            i@ == shown(r@),
    {
        Issue {
            file_path: r.file_path.clone(),
            start_line: r.line_number,
            end_line: None,
            severity: r.severity,
            category: r.category.clone(),
            title: r.title.clone(),
            description: r.description.clone(),
            suggestion: copy_optional_text(&r.suggestion),
            code_snippet: None,
        }
    }

    /// A copy of the issue.
    pub fn duplicate(&self) -> (i: Issue)
        ensures
            i@ == self@,
    {
        Issue {
            file_path: self.file_path.clone(),
            start_line: self.start_line,
            end_line: self.end_line,
            severity: self.severity,
            category: self.category.clone(),
            title: self.title.clone(),
            description: self.description.clone(),
            suggestion: copy_optional_text(&self.suggestion),
            code_snippet: copy_optional_text(&self.code_snippet),
        }
    }
}

/// Turns every reported issue into an issue of the report, in order.
pub fn issues_of(reported: &Vec<ReportedIssue>) -> (r: Vec<Issue>)
    ensures
        views_of(r@) == issue_views(reported@).map_values(|x: ReportedIssueView| shown(x)),
{
    let n: usize = reported.len();
    let mut out: Vec<Issue> = Vec::new();
    let mut i: usize = 0;
    while i < n
        invariant
            n == reported.len(),
            i <= n,
            out@.len() == i,
            forall|j: int| 0 <= j < i ==> (#[trigger] out@[j])@ == shown(reported@[j]@),
        decreases n - i,
    {
        out.push(Issue::from_reported(&reported[i]));
        i += 1;
    }
    assert(views_of(out@) =~= issue_views(reported@).map_values(|x: ReportedIssueView| shown(x)));
    out
}

/// How many of the issues have the given severity.
pub open spec fn count_of(issues: Seq<IssueView>, severity: Severity) -> nat
    decreases issues.len(),
{
    if issues.len() == 0 {
        0
    } else if issues.last().severity == severity {
        count_of(issues.drop_last(), severity) + 1
    } else {
        count_of(issues.drop_last(), severity)
    }
}

/// Every issue is counted under exactly one severity.
pub proof fn lemma_counts_add_up(issues: Seq<IssueView>)
    ensures
        count_of(issues, Severity::Critical) + count_of(issues, Severity::High) + count_of(
            issues,
            Severity::Medium,
        ) + count_of(issues, Severity::Low) == issues.len(),
    decreases issues.len(),
{
    if issues.len() > 0 {
        lemma_counts_add_up(issues.drop_last());
    }
}

/// The number of issues, in all and by severity.
#[derive(Clone, Copy, Debug, PartialEq, Eq, Structural)]
pub struct IssueSummary {
    pub total: usize,
    pub critical: usize,
    pub high: usize,
    pub medium: usize,
    pub low: usize,
}

impl IssueSummary {
    /// Whether the summary counts these issues.
    pub open spec fn counts(self, issues: Seq<IssueView>) -> bool {
        &&& self.total == issues.len()
        &&& self.critical == count_of(issues, Severity::Critical)
        &&& self.high == count_of(issues, Severity::High)
        &&& self.medium == count_of(issues, Severity::Medium)
        &&& self.low == count_of(issues, Severity::Low)
    }

    /// Counts the issues, in all and by severity.
    pub fn from_issues(issues: &Vec<Issue>) -> (s: IssueSummary)
        ensures
            s.counts(views_of(issues@)),
            s.total == s.critical + s.high + s.medium + s.low,
    {
        let ghost all = views_of(issues@);
        let n: usize = issues.len();
        let mut s = IssueSummary { total: 0, critical: 0, high: 0, medium: 0, low: 0 };
        let mut i: usize = 0;
        assert(all.take(0) =~= Seq::<IssueView>::empty());
        while i < n
            invariant
                n == issues.len(),
                all == views_of(issues@),
                i <= n,
                s.counts(all.take(i as int)),
            decreases n - i,
        {
            proof {
                assert(all.take(i as int + 1).drop_last() =~= all.take(i as int));
                assert(all.take(i as int + 1).last() == issues@[i as int]@);
                lemma_counts_add_up(all.take(i as int));
            }
            match issues[i].severity {
                Severity::Critical => {
                    s.critical = s.critical + 1;
                },
                Severity::High => {
                    s.high = s.high + 1;
                },
                Severity::Medium => {
                    s.medium = s.medium + 1;
                },
                Severity::Low => {
                    s.low = s.low + 1;
                },
            }
            s.total = s.total + 1;
            i += 1;
        }
        proof {
            assert(all.take(n as int) =~= all);
            lemma_counts_add_up(all);
        }
        s
    }
}

/// A file of the repository with the issues found in it.
#[derive(Clone, Debug, PartialEq, Eq)]
pub struct AnalyzedFile {
    pub path: String,
    pub language: String,
    pub line_count: usize,
    pub issues: Vec<Issue>,
    pub analysis_successful: bool,
    pub error: Option<String>,
}

/// The mathematical value of an [`AnalyzedFile`].
pub struct AnalyzedFileView {
    pub path: Seq<char>,
    pub language: Seq<char>,
    pub line_count: usize,
    pub issues: Seq<IssueView>,
    pub analysis_successful: bool,
    pub error: Option<Seq<char>>,
}

impl View for AnalyzedFile {
    type V = AnalyzedFileView;

    open spec fn view(&self) -> AnalyzedFileView {
        AnalyzedFileView {
            path: self.path@,
            language: self.language@,
            line_count: self.line_count,
            issues: views_of(self.issues@),
            analysis_successful: self.analysis_successful,
            error: text_of(self.error),
        }
    }
}

/// The values of a list of files.
pub open spec fn files_of(files: Seq<AnalyzedFile>) -> Seq<AnalyzedFileView> {
    files.map_values(|f: AnalyzedFile| f@)
}

/// The place of the file with the given path among `files`, or their
/// number where none has it.
pub open spec fn place_of(files: Seq<AnalyzedFileView>, path: Seq<char>) -> int
    decreases files.len(),
{
    if files.len() == 0 {
        0
    } else {
        let before = place_of(files.drop_last(), path);
        if before < files.len() - 1 {
            before
        } else if files.last().path == path {
            files.len() - 1
        } else {
            files.len() as int
        }
    }
}

/// A file with one issue, of which nothing else is known.
pub open spec fn file_with(issue: IssueView) -> AnalyzedFileView {
    AnalyzedFileView {
        path: issue.file_path,
        language: "Unknown"@,
        line_count: 0,
        issues: seq![issue],
        analysis_successful: true,
        error: None,
    }
}

/// A file with one more issue.
pub open spec fn with_issue(file: AnalyzedFileView, issue: IssueView) -> AnalyzedFileView {
    AnalyzedFileView { issues: file.issues.push(issue), ..file }
}

/// The issues grouped by file. The files stand in the order in which
/// each is first named, and the issues of a file in their own order.
pub open spec fn grouped(issues: Seq<IssueView>) -> Seq<AnalyzedFileView>
    decreases issues.len(),
{
    if issues.len() == 0 {
        Seq::<AnalyzedFileView>::empty()
    } else {
        let files = grouped(issues.drop_last());
        let issue = issues.last();
        let k = place_of(files, issue.file_path);
        if k < files.len() {
            files.update(k, with_issue(files[k], issue))
        } else {
            files.push(file_with(issue))
        }
    }
}

/// `place_of` gives the first place of a file with the path, and the
/// number of files where there is none.
pub proof fn lemma_place_of(files: Seq<AnalyzedFileView>, path: Seq<char>)
    ensures
        0 <= place_of(files, path) <= files.len(),
        place_of(files, path) < files.len() ==> files[place_of(files, path)].path == path,
        forall|j: int| 0 <= j < place_of(files, path) ==> (#[trigger] files[j]).path != path,
    decreases files.len(),
{
    if files.len() > 0 {
        lemma_place_of(files.drop_last(), path);
        let d = files.drop_last();
        assert(forall|j: int| 0 <= j < d.len() ==> d[j] == files[j]);
    }
}

/// Whether no two of the files have the same path.
pub open spec fn distinct_paths(files: Seq<AnalyzedFileView>) -> bool {
    forall|i: int, j: int|
        0 <= i < j < files.len() ==> (#[trigger] files[i]).path != (#[trigger] files[j]).path
}

/// How many issues the files hold together.
pub open spec fn issue_total(files: Seq<AnalyzedFileView>) -> nat
    decreases files.len(),
{
    if files.len() == 0 {
        0
    } else {
        issue_total(files.drop_last()) + files.last().issues.len()
    }
}

/// One more issue in one of the files is one more in all.
pub proof fn lemma_total_with_issue(files: Seq<AnalyzedFileView>, k: int, issue: IssueView)
    requires
        0 <= k < files.len(),
    ensures
        issue_total(files.update(k, with_issue(files[k], issue))) == issue_total(files) + 1,
    decreases files.len(),
{
    let after = files.update(k, with_issue(files[k], issue));
    if k == files.len() - 1 {
        assert(after.drop_last() =~= files.drop_last());
    } else {
        lemma_total_with_issue(files.drop_last(), k, issue);
        assert(after.drop_last() =~= files.drop_last().update(
            k,
            with_issue(files.drop_last()[k], issue),
        ));
    }
}

/// Grouping loses and invents nothing: no two files have the same path,
/// every file holds at least one issue and only issues that name it, and
/// the files hold as many issues together as were grouped.
pub proof fn lemma_grouped(issues: Seq<IssueView>)
    ensures
        distinct_paths(grouped(issues)),
        issue_total(grouped(issues)) == issues.len(),
        forall|k: int, j: int|
            0 <= k < grouped(issues).len() && 0 <= j < grouped(issues)[k].issues.len() ==> (
            #[trigger] grouped(issues)[k].issues[j]).file_path == grouped(issues)[k].path,
        forall|k: int| 0 <= k < grouped(issues).len() ==> (#[trigger] grouped(issues)[k]).issues.len() > 0,
    decreases issues.len(),
{
    if issues.len() > 0 {
        let files = grouped(issues.drop_last());
        let issue = issues.last();
        let k = place_of(files, issue.file_path);
        lemma_grouped(issues.drop_last());
        lemma_place_of(files, issue.file_path);
        let after = grouped(issues);
        if k < files.len() {
            lemma_total_with_issue(files, k, issue);
            assert forall|i: int, j: int| 0 <= i < j < after.len() implies (#[trigger] after[i]).path != (
            #[trigger] after[j]).path by {
                assert(after[i].path == files[i].path);
                assert(after[j].path == files[j].path);
            }
            assert forall|m: int, j: int|
                0 <= m < after.len() && 0 <= j < after[m].issues.len() implies (
            #[trigger] after[m].issues[j]).file_path == after[m].path by {
                if m == k {
                    if j < files[k].issues.len() {
                        assert(after[m].issues[j] == files[k].issues[j]);
                    }
                } else {
                    assert(after[m] == files[m]);
                }
            }
            assert forall|m: int| 0 <= m < after.len() implies (#[trigger] after[m]).issues.len() > 0 by {
                if m != k {
                    assert(after[m] == files[m]);
                }
            }
        } else {
            assert(after.drop_last() =~= files);
            assert forall|i: int, j: int| 0 <= i < j < after.len() implies (#[trigger] after[i]).path != (
            #[trigger] after[j]).path by {
                assert(after[i] == files[i]);
                if j < files.len() {
                    assert(after[j] == files[j]);
                }
            }
            assert forall|m: int, j: int|
                0 <= m < after.len() && 0 <= j < after[m].issues.len() implies (
            #[trigger] after[m].issues[j]).file_path == after[m].path by {
                if m < files.len() {
                    assert(after[m] == files[m]);
                }
            }
            assert forall|m: int| 0 <= m < after.len() implies (#[trigger] after[m]).issues.len() > 0 by {
                if m < files.len() {
                    assert(after[m] == files[m]);
                }
            }
        }
    }
}

/// Files that were added behind, or were given more issues, leave the
/// place of a path that had one where it was.
pub proof fn lemma_place_stays(
    files: Seq<AnalyzedFileView>,
    after: Seq<AnalyzedFileView>,
    path: Seq<char>,
)
    requires
        files.len() <= after.len(),
        forall|j: int| 0 <= j < files.len() ==> (#[trigger] after[j]).path == files[j].path,
        place_of(files, path) < files.len(),
    ensures
        place_of(after, path) == place_of(files, path),
{
    lemma_place_of(files, path);
    lemma_place_of(after, path);
    let k = place_of(files, path);
    let q = place_of(after, path);
    assert(after[k].path == path);
    if q < k {
        assert(after[q].path == files[q].path);
    }
}

/// Every issue that was grouped has its file among the files.
pub proof fn lemma_every_issue_has_its_file(issues: Seq<IssueView>)
    ensures
        forall|i: int|
            0 <= i < issues.len() ==> place_of(grouped(issues), (#[trigger] issues[i]).file_path)
                < grouped(issues).len(),
    decreases issues.len(),
{
    if issues.len() > 0 {
        let before = issues.drop_last();
        let files = grouped(before);
        let issue = issues.last();
        let k = place_of(files, issue.file_path);
        let after = grouped(issues);
        lemma_every_issue_has_its_file(before);
        lemma_place_of(files, issue.file_path);
        assert forall|i: int| 0 <= i < issues.len() implies place_of(
            after,
            (#[trigger] issues[i]).file_path,
        ) < after.len() by {
            if i < before.len() {
                assert(before[i] == issues[i]);
                lemma_place_stays(files, after, issues[i].file_path);
            } else if k < files.len() {
                lemma_place_stays(files, after, issue.file_path);
            } else {
                lemma_place_of(after, issue.file_path);
                assert(after[files.len() as int].path == issue.file_path);
            }
        }
    }
}

fn find_file(files: &Vec<AnalyzedFile>, path: &String) -> (k: usize)
    ensures
        k == place_of(files_of(files@), path@),
        k <= files.len(),
{
    let ghost all = files_of(files@);
    let n: usize = files.len();
    let mut i: usize = 0;
    assert(all.take(0) =~= Seq::<AnalyzedFileView>::empty());
    while i < n
        invariant
            n == files.len(),
            all == files_of(files@),
            i <= n,
            place_of(all.take(i as int), path@) == i,
        decreases n - i,
    {
        proof {
            assert(all.take(i as int + 1).drop_last() =~= all.take(i as int));
            assert(all.take(i as int + 1).last() == files@[i as int]@);
        }
        if files[i].path == *path {
            proof {
                lemma_place_settled(all, i as int + 1, path@);
            }
            return i;
        }
        i += 1;
    }
    assert(all.take(n as int) =~= all);
    n
}

/// A place that is found among the first files is the place among all.
pub proof fn lemma_place_settled(files: Seq<AnalyzedFileView>, upto: int, path: Seq<char>)
    requires
        0 <= upto <= files.len(),
        place_of(files.take(upto), path) < upto,
    ensures
        place_of(files, path) == place_of(files.take(upto), path),
    decreases files.len() - upto,
{
    if upto == files.len() {
        assert(files.take(upto) =~= files);
    } else {
        assert(files.take(upto + 1).drop_last() =~= files.take(upto));
        lemma_place_settled(files, upto + 1, path);
    }
}

/// Groups the issues by file. The files stand in the order in which each
/// is first named, and the issues of a file in their own order.
pub fn group_by_file(issues: &Vec<Issue>) -> (files: Vec<AnalyzedFile>)
    ensures
        files_of(files@) == grouped(views_of(issues@)),
{
    let ghost all = views_of(issues@);
    let n: usize = issues.len();
    let mut files: Vec<AnalyzedFile> = Vec::new();
    let mut i: usize = 0;
    assert(all.take(0) =~= Seq::<IssueView>::empty());
    assert(files_of(files@) =~= Seq::<AnalyzedFileView>::empty());
    while i < n
        invariant
            n == issues.len(),
            all == views_of(issues@),
            i <= n,
            files_of(files@) == grouped(all.take(i as int)),
        decreases n - i,
    {
        let ghost before = files_of(files@);
        proof {
            assert(all.take(i as int + 1).drop_last() =~= all.take(i as int));
            assert(all.take(i as int + 1).last() == issues@[i as int]@);
        }
        let issue = issues[i].duplicate();
        let k: usize = find_file(&files, &issue.file_path);
        if k < files.len() {
            let mut file = files.remove(k);
            let ghost old_file = file@;
            file.issues.push(issue);
            assert(file@.issues =~= old_file.issues.push(issue@));
            files.insert(k, file);
            assert(files_of(files@) =~= before.update(k as int, with_issue(before[k as int], issue@)));
        } else {
            let mut found: Vec<Issue> = Vec::new();
            let path = issue.file_path.clone();
            found.push(issue);
            let file = AnalyzedFile {
                path,
                language: "Unknown".to_owned(),
                line_count: 0,
                issues: found,
                analysis_successful: true,
                error: None,
            };
            assert(file@.issues =~= seq![issue@]);
            files.push(file);
            assert(files_of(files@) =~= before.push(file_with(issue@)));
        }
        i += 1;
    }
    assert(all.take(n as int) =~= all);
    files
}

/// What a report says of the run that made it.
#[derive(Clone, Debug, PartialEq, Eq)]
pub struct ReportMetadata {
    pub repo_url: String,
    /// When the report was made, in seconds since the Unix epoch.
    pub analysis_date: i64,
    pub model_used: String,
    pub files_analyzed: usize,
    pub files_failed: usize,
    pub total_issues: usize,
    /// How long the analysis took, in milliseconds.
    pub duration_ms: u64,
}

/// The mathematical value of a [`ReportMetadata`].
pub struct ReportMetadataView {
    pub repo_url: Seq<char>,
    pub analysis_date: i64,
    pub model_used: Seq<char>,
    pub files_analyzed: usize,
    pub files_failed: usize,
    pub total_issues: usize,
    pub duration_ms: u64,
}

impl View for ReportMetadata {
    type V = ReportMetadataView;

    open spec fn view(&self) -> ReportMetadataView {
        ReportMetadataView {
            repo_url: self.repo_url@,
            analysis_date: self.analysis_date,
            model_used: self.model_used@,
            files_analyzed: self.files_analyzed,
            files_failed: self.files_failed,
            total_issues: self.total_issues,
            duration_ms: self.duration_ms,
        }
    }
}

/// The result of an analysis, as it is handed on to be written out.
#[derive(Clone, Debug, PartialEq, Eq)]
pub struct Report {
    pub metadata: ReportMetadata,
    pub project_overview: String,
    pub files: Vec<AnalyzedFile>,
    pub summary: IssueSummary,
    pub recommendations: Vec<String>,
}

/// The mathematical value of a [`Report`].
pub struct ReportView {
    pub metadata: ReportMetadataView,
    pub project_overview: Seq<char>,
    pub files: Seq<AnalyzedFileView>,
    pub summary: IssueSummary,
    pub recommendations: Seq<Seq<char>>,
}

impl View for Report {
    type V = ReportView;

    open spec fn view(&self) -> ReportView {
        ReportView {
            metadata: self.metadata@,
            project_overview: self.project_overview@,
            files: files_of(self.files@),
            summary: self.summary,
            recommendations: texts(self.recommendations@),
        }
    }
}

/// The summary of the given issues.
pub open spec fn summary_of(issues: Seq<IssueView>) -> IssueSummary {
    IssueSummary {
        total: issues.len() as usize,
        critical: count_of(issues, Severity::Critical) as usize,
        high: count_of(issues, Severity::High) as usize,
        medium: count_of(issues, Severity::Medium) as usize,
        low: count_of(issues, Severity::Low) as usize,
    }
}

/// The report on the issues that a run reported: the issues grouped by
/// file, their summary, and two standing recommendations.
pub open spec fn assembled(
    repo_url: Seq<char>,
    model_name: Seq<char>,
    reported: Seq<ReportedIssueView>,
    duration_ms: u64,
    analysis_date: i64,
) -> ReportView {
    let issues = reported.map_values(|x: ReportedIssueView| shown(x));
    ReportView {
        metadata: ReportMetadataView {
            repo_url,
            analysis_date,
            model_used: model_name,
            files_analyzed: grouped(issues).len() as usize,
            files_failed: 0,
            total_issues: issues.len() as usize,
            duration_ms,
        },
        project_overview: "Analysis performed by AI agent with tool-calling capabilities."@,
        files: grouped(issues),
        summary: summary_of(issues),
        recommendations: seq![
            "Review all reported issues and prioritize by severity."@,
            "Address critical and high severity issues first."@,
        ],
    }
}

/// Makes the report on the issues that a run reported, dated
/// `analysis_date`, in seconds since the Unix epoch. The caller reads the
/// clock.
pub fn assemble(
    repo_url: &str,
    model_name: &str,
    reported: &Vec<ReportedIssue>,
    duration_ms: u64,
    analysis_date: i64,
) -> (r: Report)
    ensures
        r@ == assembled(repo_url@, model_name@, issue_views(reported@), duration_ms, analysis_date),
{
    let issues = issues_of(reported);
    let summary = IssueSummary::from_issues(&issues);
    let files = group_by_file(&issues);
    let mut recommendations: Vec<String> = Vec::new();
    recommendations.push("Review all reported issues and prioritize by severity.".to_owned());
    recommendations.push("Address critical and high severity issues first.".to_owned());
    assert(texts(recommendations@) =~= seq![
        "Review all reported issues and prioritize by severity."@,
        "Address critical and high severity issues first."@,
    ]);
    let metadata = ReportMetadata {
        repo_url: repo_url.to_owned(),
        analysis_date,
        model_used: model_name.to_owned(),
        files_analyzed: files.len(),
        files_failed: 0,
        total_issues: summary.total,
        duration_ms,
    };
    Report {
        metadata,
        project_overview: "Analysis performed by AI agent with tool-calling capabilities.".to_owned(),
        files,
        summary,
        recommendations,
    }
}

/// The report on a single reported issue holds one file, that of the
/// issue, with the issue as its only one, and counts one issue, under the
/// severity of the issue.
pub proof fn lemma_report_of_one(
    repo_url: Seq<char>,
    model_name: Seq<char>,
    issue: ReportedIssueView,
    duration_ms: u64,
    analysis_date: i64,
)
    ensures
        ({
            let r = assembled(repo_url, model_name, seq![issue], duration_ms, analysis_date);
            &&& r.files == seq![file_with(shown(issue))]
            &&& r.files[0].path == issue.file_path
            &&& r.files[0].issues == seq![shown(issue)]
            &&& r.files[0].issues[0].severity == issue.severity
            &&& r.metadata.files_analyzed == 1
            &&& r.metadata.total_issues == 1
            &&& r.summary.total == 1
            &&& r.summary.critical == (if issue.severity == Severity::Critical { 1usize } else { 0usize })
            &&& r.summary.high == (if issue.severity == Severity::High { 1usize } else { 0usize })
            &&& r.summary.medium == (if issue.severity == Severity::Medium { 1usize } else { 0usize })
            &&& r.summary.low == (if issue.severity == Severity::Low { 1usize } else { 0usize })
        }),
{
    let issues = seq![issue].map_values(|x: ReportedIssueView| shown(x));
    assert(issues =~= seq![shown(issue)]);
    assert(issues.drop_last() =~= Seq::<IssueView>::empty());
    assert(grouped(issues.drop_last()) =~= Seq::<AnalyzedFileView>::empty());
    assert(grouped(issues) =~= seq![file_with(shown(issue))]);
    assert(count_of(issues.drop_last(), Severity::Critical) == 0);
    assert(count_of(issues.drop_last(), Severity::High) == 0);
    assert(count_of(issues.drop_last(), Severity::Medium) == 0);
    assert(count_of(issues.drop_last(), Severity::Low) == 0);
}

} // verus!
