use code_auditor::issue::ReportedIssue;
use code_auditor::report::{assemble, group_by_file, issues_of, Issue, IssueSummary};
use code_auditor::retry::{RetryDecision, RetryPolicy};
use code_auditor::severity::Severity;

fn reported(path: &str, severity: Severity, title: &str) -> ReportedIssue {
    ReportedIssue {
        file_path: path.to_string(),
        line_number: Some(5),
        severity,
        category: "General".to_string(),
        title: title.to_string(),
        description: "d".to_string(),
        suggestion: Some("s".to_string()),
    }
}

fn sample() -> Vec<ReportedIssue> {
    vec![
        reported("b.rs", Severity::High, "one"),
        reported("a.rs", Severity::Low, "two"),
        reported("b.rs", Severity::Critical, "three"),
        reported("c.rs", Severity::High, "four"),
        reported("a.rs", Severity::Medium, "five"),
        reported("b.rs", Severity::High, "six"),
    ]
}

#[test]
fn reported_issue_becomes_an_issue_of_the_report() {
    let r = reported("a.rs", Severity::High, "t");
    let i = Issue::from_reported(&r);
    assert_eq!(
        i,
        Issue {
            file_path: "a.rs".to_string(),
            start_line: Some(5),
            end_line: None,
            severity: Severity::High,
            category: "General".to_string(),
            title: "t".to_string(),
            description: "d".to_string(),
            suggestion: Some("s".to_string()),
            code_snippet: None,
        }
    );
    assert_eq!(i.duplicate(), i);
}

#[test]
fn summary_counts_by_severity() {
    let issues = issues_of(&sample());
    let s = IssueSummary::from_issues(&issues);
    assert_eq!(s, IssueSummary { total: 6, critical: 1, high: 3, medium: 1, low: 1 });
    assert_eq!(s.total, s.critical + s.high + s.medium + s.low);
    let none = IssueSummary::from_issues(&Vec::new());
    assert_eq!(none, IssueSummary { total: 0, critical: 0, high: 0, medium: 0, low: 0 });
}

#[test]
fn issues_are_grouped_by_file_in_order() {
    let issues = issues_of(&sample());
    let files = group_by_file(&issues);
    let paths: Vec<&str> = files.iter().map(|f| f.path.as_str()).collect();
    assert_eq!(paths, ["b.rs", "a.rs", "c.rs"]);
    let titles: Vec<Vec<&str>> =
        files.iter().map(|f| f.issues.iter().map(|i| i.title.as_str()).collect()).collect();
    assert_eq!(titles, [vec!["one", "three", "six"], vec!["two", "five"], vec!["four"]]);
    for f in &files {
        assert_eq!(f.language, "Unknown");
        assert_eq!(f.line_count, 0);
        assert!(f.analysis_successful);
        assert_eq!(f.error, None);
        assert!(f.issues.iter().all(|i| i.file_path == f.path));
    }
    assert_eq!(files.iter().map(|f| f.issues.len()).sum::<usize>(), issues.len());
    assert!(group_by_file(&Vec::new()).is_empty());
}

#[test]
fn report_is_assembled() {
    let r = assemble("https://github.com/test/repo", "test", &sample(), 1500, 1_700_000_000);
    assert_eq!(r.metadata.repo_url, "https://github.com/test/repo");
    assert_eq!(r.metadata.model_used, "test");
    assert_eq!(r.metadata.analysis_date, 1_700_000_000);
    assert_eq!(r.metadata.files_analyzed, 3);
    assert_eq!(r.metadata.files_failed, 0);
    assert_eq!(r.metadata.total_issues, 6);
    assert_eq!(r.metadata.duration_ms, 1500);
    assert_eq!(r.project_overview, "Analysis performed by AI agent with tool-calling capabilities.");
    assert_eq!(r.files, group_by_file(&issues_of(&sample())));
    assert_eq!(r.summary, IssueSummary { total: 6, critical: 1, high: 3, medium: 1, low: 1 });
    assert_eq!(
        r.recommendations,
        [
            "Review all reported issues and prioritize by severity.",
            "Address critical and high severity issues first."
        ]
    );
}

#[test]
fn retries_are_bounded_and_back_off() {
    let p = RetryPolicy { max_retries: 3, base_delay_ms: 500 };
    assert_eq!(p.after_failure(0), RetryDecision::GiveUp);
    assert_eq!(p.after_failure(1), RetryDecision::RetryAfter(500));
    assert_eq!(p.after_failure(2), RetryDecision::RetryAfter(1000));
    assert_eq!(p.after_failure(3), RetryDecision::RetryAfter(2000));
    assert_eq!(p.after_failure(4), RetryDecision::GiveUp);
    assert_eq!(p.after_failure(u32::MAX), RetryDecision::GiveUp);
    let never = RetryPolicy { max_retries: 0, base_delay_ms: 500 };
    assert_eq!(never.after_failure(1), RetryDecision::GiveUp);
}

#[test]
fn backoff_stops_at_the_largest_pause() {
    let p = RetryPolicy { max_retries: 100, base_delay_ms: 1 << 62 };
    assert_eq!(p.after_failure(1), RetryDecision::RetryAfter(1 << 62));
    assert_eq!(p.after_failure(2), RetryDecision::RetryAfter(1 << 63));
    assert_eq!(p.after_failure(3), RetryDecision::RetryAfter(u64::MAX));
    assert_eq!(p.after_failure(100), RetryDecision::RetryAfter(u64::MAX));
    let zero = RetryPolicy { max_retries: 100, base_delay_ms: 0 };
    assert_eq!(zero.after_failure(70), RetryDecision::RetryAfter(0));
    let three = RetryPolicy { max_retries: 100, base_delay_ms: 3 };
    assert_eq!(three.after_failure(63), RetryDecision::RetryAfter(3 << 62));
    assert_eq!(three.after_failure(64), RetryDecision::RetryAfter(u64::MAX));
}
