use vstd::prelude::*;
use crate::text::{eq_ignore_ascii_case, same_ignoring_ascii_case};

verus! {

/// How serious a reported finding is.
#[derive(Clone, Copy, Debug, PartialEq, Eq, Structural)]
pub enum Severity {
    Critical,
    High,
    Medium,
    Low,
}

/// The severity that a free-text label stands for: one of the four names in
/// any mix of upper and lower case, and `Low` for every other text.
pub open spec fn severity_of(label: Seq<char>) -> Severity {
    if same_ignoring_ascii_case(label, "critical"@) {
        Severity::Critical
    } else if same_ignoring_ascii_case(label, "high"@) {
        Severity::High
    } else if same_ignoring_ascii_case(label, "medium"@) {
        Severity::Medium
    } else {
        Severity::Low
    }
}

/// Whether a label names one of the four severities.
pub open spec fn is_severity_name(label: Seq<char>) -> bool {
    ||| same_ignoring_ascii_case(label, "critical"@)
    ||| same_ignoring_ascii_case(label, "high"@)
    ||| same_ignoring_ascii_case(label, "medium"@)
    ||| same_ignoring_ascii_case(label, "low"@)
}

impl Severity {
    /// The canonical name of the severity.
    pub open spec fn name(self) -> Seq<char> {
        match self {
            Severity::Critical => "Critical"@,
            Severity::High => "High"@,
            Severity::Medium => "Medium"@,
            Severity::Low => "Low"@,
        }
    }

    /// Reads a severity from a free-text label, without regard to case.
    /// A label that names no severity gives `Low`.
    pub fn from_label(label: &str) -> (r: Severity)
        ensures
            r == severity_of(label@),
            !is_severity_name(label@) ==> r == Severity::Low,
    {
        if eq_ignore_ascii_case(label, "critical") {
            Severity::Critical
        } else if eq_ignore_ascii_case(label, "high") {
            Severity::High
        } else if eq_ignore_ascii_case(label, "medium") {
            Severity::Medium
        } else {
            Severity::Low
        }
    }

    /// The canonical name of the severity, as text.
    pub fn label(self) -> (r: String)
        ensures
            r@ == self.name(),
    {
        match self {
            Severity::Critical => "Critical".to_owned(),
            Severity::High => "High".to_owned(),
            Severity::Medium => "Medium".to_owned(),
            Severity::Low => "Low".to_owned(),
        }
    }
}

/// Reading a severity's own name back gives that severity: the four names
/// stand for four different values.
pub proof fn lemma_label_round_trip(s: Severity)
    ensures
        severity_of(s.name()) == s,
        is_severity_name(s.name()),
{
    reveal_strlit("critical");
    reveal_strlit("high");
    reveal_strlit("medium");
    reveal_strlit("low");
    reveal_strlit("Critical");
    reveal_strlit("High");
    reveal_strlit("Medium");
    reveal_strlit("Low");
    match s {
        Severity::Critical => {
            assert(same_ignoring_ascii_case("Critical"@, "critical"@));
        },
        Severity::High => {
            assert(same_ignoring_ascii_case("High"@, "high"@));
        },
        Severity::Medium => {
            assert(same_ignoring_ascii_case("Medium"@, "medium"@));
        },
        Severity::Low => {
            assert(same_ignoring_ascii_case("Low"@, "low"@));
        },
    }
}

} // verus!
