use vstd::prelude::*;
use crate::severity::{severity_of, Severity};
use crate::text::{blank, clip, clipped, is_blank};

verus! {

/// The longest title, in characters, that a reported issue keeps.
pub const MAX_TITLE_CHARS: usize = 120;

/// A finding as the model states it, before any of it is checked.
#[derive(Clone, Debug, PartialEq, Eq)]
pub struct RawModelIssue {
    pub file_path: String,
    pub line_number: Option<i64>,
    pub severity: String,
    pub category: String,
    pub title: String,
    pub description: String,
    pub suggestion: Option<String>,
}

/// The mathematical value of a [`RawModelIssue`].
pub struct RawModelIssueView {
    pub file_path: Seq<char>,
    pub line_number: Option<i64>,
    pub severity: Seq<char>,
    pub category: Seq<char>,
    pub title: Seq<char>,
    pub description: Seq<char>,
    pub suggestion: Option<Seq<char>>,
}

/// A finding in canonical form.
#[derive(Clone, Debug, PartialEq, Eq)]
pub struct ReportedIssue {
    pub file_path: String,
    pub line_number: Option<u64>,
    pub severity: Severity,
    pub category: String,
    pub title: String,
    pub description: String,
    pub suggestion: Option<String>,
}

/// The mathematical value of a [`ReportedIssue`].
pub struct ReportedIssueView {
    pub file_path: Seq<char>,
    pub line_number: Option<u64>,
    pub severity: Severity,
    pub category: Seq<char>,
    pub title: Seq<char>,
    pub description: Seq<char>,
    pub suggestion: Option<Seq<char>>,
}

/// The text of an optional string.
pub open spec fn text_of(s: Option<String>) -> Option<Seq<char>> {
    match s {
        Some(t) => Some(t@),
        None => None,
    }
}

impl View for RawModelIssue {
    type V = RawModelIssueView;

    open spec fn view(&self) -> RawModelIssueView {
        RawModelIssueView {
            file_path: self.file_path@,
            line_number: self.line_number,
            severity: self.severity@,
            category: self.category@,
            title: self.title@,
            description: self.description@,
            suggestion: text_of(self.suggestion),
        }
    }
}

impl View for ReportedIssue {
    type V = ReportedIssueView;

    open spec fn view(&self) -> ReportedIssueView {
        ReportedIssueView {
            file_path: self.file_path@,
            line_number: self.line_number,
            severity: self.severity,
            category: self.category@,
            title: self.title@,
            description: self.description@,
            suggestion: text_of(self.suggestion),
        }
    }
}

impl ReportedIssueView {
    /// What every canonical issue satisfies: it names a file, has a title of
    /// bounded length and a category, and its line number, if any, is at
    /// least 1.
    pub open spec fn canonical(self) -> bool {
        &&& self.file_path.len() > 0
        &&& self.category.len() > 0
        &&& 0 < self.title.len() <= MAX_TITLE_CHARS
        &&& match self.line_number {
            Some(n) => n >= 1,
            None => true,
        }
    }
}

/// The line number that a raw one stands for: itself from 1 on, else none.
pub open spec fn canonical_line(line: Option<i64>) -> Option<u64> {
    match line {
        Some(n) => if n >= 1 {
            Some(n as u64)
        } else {
            None
        },
        None => None,
    }
}

/// The title of the canonical issue: the raw title, else the description,
/// each cut to the bound; a placeholder where both are blank.
pub open spec fn canonical_title(title: Seq<char>, description: Seq<char>) -> Seq<char> {
    if !is_blank(title) {
        clipped(title, MAX_TITLE_CHARS as nat)
    } else if !is_blank(description) {
        clipped(description, MAX_TITLE_CHARS as nat)
    } else {
        "Untitled issue"@
    }
}

/// A text, or the given default where the text is blank.
pub open spec fn or_default(s: Seq<char>, default: Seq<char>) -> Seq<char> {
    if is_blank(s) {
        default
    } else {
        s
    }
}

/// A suggestion that says something, else none.
pub open spec fn canonical_suggestion(s: Option<Seq<char>>) -> Option<Seq<char>> {
    match s {
        Some(t) => if is_blank(t) {
            None
        } else {
            Some(t)
        },
        None => None,
    }
}

/// The canonical issue that a raw one stands for.
pub open spec fn normalized(raw: RawModelIssueView) -> ReportedIssueView {
    ReportedIssueView {
        file_path: or_default(raw.file_path, "unknown"@),
        line_number: canonical_line(raw.line_number),
        severity: severity_of(raw.severity),
        category: or_default(raw.category, "General"@),
        title: canonical_title(raw.title, raw.description),
        description: raw.description,
        suggestion: canonical_suggestion(raw.suggestion),
    }
}

/// Every raw issue, whatever it holds, stands for a canonical one.
pub proof fn lemma_normalized_is_canonical(raw: RawModelIssueView)
    ensures
        normalized(raw).canonical(),
{
    reveal_strlit("unknown");
    reveal_strlit("General");
    reveal_strlit("Untitled issue");
    let r = normalized(raw);
    assert(!is_blank(raw.file_path) ==> raw.file_path.len() > 0);
    assert(!is_blank(raw.category) ==> raw.category.len() > 0);
    assert(!is_blank(raw.title) ==> raw.title.len() > 0);
    assert(!is_blank(raw.description) ==> raw.description.len() > 0);
}

fn text_or_default(s: &String, default: &str) -> (r: String)
    ensures
        r@ == or_default(s@, default@),
{
    if blank(s.as_str()) {
        default.to_owned()
    } else {
        s.clone()
    }
}

/// Turns what the model reported into a canonical issue. It never fails:
/// blank fields get defaults, the severity label is read without regard to
/// case, and a line number below 1 is dropped.
pub fn normalize(raw: &RawModelIssue) -> (r: ReportedIssue)
    ensures
        r@ == normalized(raw@),
        r@.canonical(),
{
    proof {
        lemma_normalized_is_canonical(raw@);
    }
    let title = if !blank(raw.title.as_str()) {
        clip(raw.title.as_str(), MAX_TITLE_CHARS)
    } else if !blank(raw.description.as_str()) {
        clip(raw.description.as_str(), MAX_TITLE_CHARS)
    } else {
        "Untitled issue".to_owned()
    };
    let line_number = match raw.line_number {
        Some(n) => if n >= 1 {
            Some(n as u64)
        } else {
            None
        },
        None => None,
    };
    let suggestion = match &raw.suggestion {
        Some(t) => if blank(t.as_str()) {
            None
        } else {
            Some(t.clone())
        },
        None => None,
    };
    ReportedIssue {
        file_path: text_or_default(&raw.file_path, "unknown"),
        line_number,
        severity: Severity::from_label(raw.severity.as_str()),
        category: text_or_default(&raw.category, "General"),
        title,
        description: raw.description.clone(),
        suggestion,
    }
}

/// The values of a list of canonical issues.
pub open spec fn issue_views(v: Seq<ReportedIssue>) -> Seq<ReportedIssueView> {
    v.map_values(|i: ReportedIssue| i@)
}

/// The values of a list of raw issues.
pub open spec fn raw_views(v: Seq<RawModelIssue>) -> Seq<RawModelIssueView> {
    v.map_values(|i: RawModelIssue| i@)
}

/// Turns every raw issue of a list into its canonical form, in order.
pub fn normalize_all(raws: &Vec<RawModelIssue>) -> (r: Vec<ReportedIssue>)
    ensures
        issue_views(r@) == raw_views(raws@).map_values(|w: RawModelIssueView| normalized(w)),
        forall|i: int| 0 <= i < r@.len() ==> (#[trigger] r@[i])@.canonical(),
{
    let n: usize = raws.len();
    let mut out: Vec<ReportedIssue> = Vec::new();
    let mut i: usize = 0;
    while i < n
        invariant
            n == raws.len(),
            i <= n,
            out@.len() == i,
            forall|j: int| 0 <= j < i ==> (#[trigger] out@[j])@ == normalized(raws@[j]@),
            forall|j: int| 0 <= j < i ==> (#[trigger] out@[j])@.canonical(),
        decreases n - i,
    {
        out.push(normalize(&raws[i]));
        i += 1;
    }
    assert(issue_views(out@) =~= raw_views(raws@).map_values(|w: RawModelIssueView| normalized(w)));
    out
}

} // verus!
