use code_auditor::issue::{normalize, normalize_all, RawModelIssue, MAX_TITLE_CHARS};
use code_auditor::severity::Severity;

fn raw(severity: &str) -> RawModelIssue {
    RawModelIssue {
        file_path: "src/lib.rs".to_string(),
        line_number: Some(3),
        severity: severity.to_string(),
        category: "Security".to_string(),
        title: "Hard-coded key".to_string(),
        description: "The key is part of the source.".to_string(),
        suggestion: Some("Read it from the environment.".to_string()),
    }
}

#[test]
fn severity_labels_are_read_in_any_case() {
    let cases = [
        ("critical", Severity::Critical),
        ("CRITICAL", Severity::Critical),
        ("Critical", Severity::Critical),
        ("cRiTiCaL", Severity::Critical),
        ("high", Severity::High),
        ("HIGH", Severity::High),
        ("High", Severity::High),
        ("medium", Severity::Medium),
        ("MEDIUM", Severity::Medium),
        ("MeDiUm", Severity::Medium),
        ("low", Severity::Low),
        ("LOW", Severity::Low),
        ("Low", Severity::Low),
    ];
    for (label, expected) in cases {
        assert_eq!(normalize(&raw(label)).severity, expected, "label {:?}", label);
        assert_eq!(Severity::from_label(label), expected);
    }
}

#[test]
fn unknown_severity_labels_give_low() {
    for label in ["", "urgent", "blocker", "hig", "highh", " high", "high ", "critical!", "médium", "info", "0"] {
        assert_eq!(normalize(&raw(label)).severity, Severity::Low, "label {:?}", label);
    }
}

#[test]
fn unicode_look_alikes_are_not_severity_names() {
    assert_eq!(Severity::from_label("H\u{0130}GH"), Severity::Low);
    assert_eq!(Severity::from_label("\u{212A}"), Severity::Low);
}

#[test]
fn severity_names_read_back() {
    for s in [Severity::Critical, Severity::High, Severity::Medium, Severity::Low] {
        assert_eq!(Severity::from_label(&s.label()), s);
    }
    assert_eq!(Severity::Critical.label(), "Critical");
    assert_eq!(Severity::High.label(), "High");
    assert_eq!(Severity::Medium.label(), "Medium");
    assert_eq!(Severity::Low.label(), "Low");
}

#[test]
fn complete_issue_is_kept_as_it_is() {
    let r = normalize(&raw("High"));
    assert_eq!(r.file_path, "src/lib.rs");
    assert_eq!(r.line_number, Some(3));
    assert_eq!(r.severity, Severity::High);
    assert_eq!(r.category, "Security");
    assert_eq!(r.title, "Hard-coded key");
    assert_eq!(r.description, "The key is part of the source.");
    assert_eq!(r.suggestion, Some("Read it from the environment.".to_string()));
}

#[test]
fn blank_category_becomes_general() {
    let mut x = raw("low");
    x.category = String::new();
    assert_eq!(normalize(&x).category, "General");
    x.category = " \t\n".to_string();
    assert_eq!(normalize(&x).category, "General");
}

#[test]
fn blank_title_is_taken_from_the_description() {
    let mut x = raw("low");
    x.title = "  ".to_string();
    assert_eq!(normalize(&x).title, "The key is part of the source.");
    x.description = "d".repeat(300);
    let r = normalize(&x);
    assert_eq!(r.title, "d".repeat(MAX_TITLE_CHARS));
    assert_eq!(r.description, "d".repeat(300));
}

#[test]
fn blank_title_and_description_give_the_placeholder() {
    let mut x = raw("low");
    x.title = String::new();
    x.description = "\n".to_string();
    let r = normalize(&x);
    assert_eq!(r.title, "Untitled issue");
    assert_eq!(r.description, "\n");
}

#[test]
fn long_title_is_cut_to_the_bound() {
    let mut x = raw("low");
    x.title = "t".repeat(MAX_TITLE_CHARS);
    assert_eq!(normalize(&x).title.chars().count(), MAX_TITLE_CHARS);
    x.title = "t".repeat(MAX_TITLE_CHARS + 1);
    assert_eq!(normalize(&x).title, "t".repeat(MAX_TITLE_CHARS));
    x.title = "é".repeat(MAX_TITLE_CHARS + 5);
    assert_eq!(normalize(&x).title, "é".repeat(MAX_TITLE_CHARS));
    assert_eq!(MAX_TITLE_CHARS, 120);
}

#[test]
fn line_numbers_below_one_are_dropped() {
    let mut x = raw("low");
    x.line_number = Some(0);
    assert_eq!(normalize(&x).line_number, None);
    x.line_number = Some(-4);
    assert_eq!(normalize(&x).line_number, None);
    x.line_number = Some(i64::MIN);
    assert_eq!(normalize(&x).line_number, None);
    x.line_number = Some(1);
    assert_eq!(normalize(&x).line_number, Some(1));
    x.line_number = Some(i64::MAX);
    assert_eq!(normalize(&x).line_number, Some(i64::MAX as u64));
    x.line_number = None;
    assert_eq!(normalize(&x).line_number, None);
}

#[test]
fn blank_file_path_and_suggestion_get_defaults() {
    let mut x = raw("low");
    x.file_path = String::new();
    x.suggestion = Some("   ".to_string());
    let r = normalize(&x);
    assert_eq!(r.file_path, "unknown");
    assert_eq!(r.suggestion, None);
}

#[test]
fn empty_issue_is_still_canonical() {
    let x = RawModelIssue {
        file_path: String::new(),
        line_number: None,
        severity: String::new(),
        category: String::new(),
        title: String::new(),
        description: String::new(),
        suggestion: None,
    };
    let r = normalize(&x);
    assert_eq!(r.file_path, "unknown");
    assert_eq!(r.line_number, None);
    assert_eq!(r.severity, Severity::Low);
    assert_eq!(r.category, "General");
    assert_eq!(r.title, "Untitled issue");
    assert_eq!(r.description, "");
    assert_eq!(r.suggestion, None);
}

#[test]
fn lists_are_normalized_in_order() {
    let list = vec![raw("high"), raw("nonsense"), raw("CRITICAL")];
    let out = normalize_all(&list);
    assert_eq!(out.len(), 3);
    assert_eq!(out[0].severity, Severity::High);
    assert_eq!(out[1].severity, Severity::Low);
    assert_eq!(out[2].severity, Severity::Critical);
    assert_eq!(out[0], normalize(&list[0]));
    assert!(normalize_all(&Vec::new()).is_empty());
}
