//! Lint findings, their severities and summaries.
use vstd::prelude::*;
use crate::text::{ascii_lower, clone_opt, opt_view, push_str, str_eq, to_ascii_lowercase,
    to_owned_string};

verus! {

broadcast use vstd::string::group_string_axioms;

/// Rule severity levels, from least to most severe.
#[derive(Debug, Clone, Copy, PartialEq, Eq, Structural, PartialOrd, Ord)]
pub enum Severity {
    /// Informational finding.
    Info,
    /// Non-fatal issue.
    Warning,
    /// Fatal issue that fails validation.
    Error,
}

/// Position of a severity in the order `Info < Warning < Error`.
pub open spec fn severity_rank(s: Severity) -> int {
    match s {
        Severity::Info => 0,
        Severity::Warning => 1,
        Severity::Error => 2,
    }
}

/// The stable name of a severity.
pub open spec fn severity_name(s: Severity) -> Seq<char> {
    match s {
        Severity::Error => "error"@,
        Severity::Warning => "warning"@,
        Severity::Info => "info"@,
    }
}

/// The severity a configuration string names, compared without ASCII case.
pub open spec fn severity_from_name(text: Seq<char>) -> Option<Severity> {
    let l = ascii_lower(text);
    if l == "error"@ {
        Some(Severity::Error)
    } else if l == "warning"@ {
        Some(Severity::Warning)
    } else if l == "info"@ {
        Some(Severity::Info)
    } else {
        None
    }
}

impl Severity {
    /// Parses a severity string from configuration (`error`, `warning`, `info`),
    /// ignoring ASCII case.
    pub fn parse(value: &str) -> (r: Option<Severity>)
        ensures
            r == severity_from_name(value@),
    {
        let l = to_ascii_lowercase(value);
        if str_eq(l.as_str(), "error") {
            Some(Severity::Error)
        } else if str_eq(l.as_str(), "warning") {
            Some(Severity::Warning)
        } else if str_eq(l.as_str(), "info") {
            Some(Severity::Info)
        } else {
            None
        }
    }

    /// Stable string form used in JSON output and configuration.
    pub fn as_str(self) -> (r: &'static str)
        ensures
            r@ == severity_name(self),
    {
        match self {
            Severity::Error => "error",
            Severity::Warning => "warning",
            Severity::Info => "info",
        }
    }

    /// The position of this severity in the order `Info < Warning < Error`.
    pub fn rank(self) -> (r: u8)
        ensures
            r == severity_rank(self),
    {
        match self {
            Severity::Info => 0,
            Severity::Warning => 1,
            Severity::Error => 2,
        }
    }
}

/// A single lint finding.
pub struct LintResult {
    /// Stable rule identifier (for example `required-field`).
    pub rule_id: String,
    /// Finding severity.
    pub severity: Severity,
    /// Human-readable message.
    pub message: String,
    /// Optional config key path related to the finding.
    pub path: Option<String>,
}

/// The content of a finding.
pub struct LintView {
    pub rule_id: Seq<char>,
    pub severity: Severity,
    pub message: Seq<char>,
    pub path: Option<Seq<char>>,
}

impl View for LintResult {
    type V = LintView;

    open spec fn view(&self) -> LintView {
        LintView {
            rule_id: self.rule_id@,
            severity: self.severity,
            message: self.message@,
            path: opt_view(self.path),
        }
    }
}

/// The finding with the given parts.
pub open spec fn finding(
    rule_id: Seq<char>,
    severity: Severity,
    message: Seq<char>,
    path: Option<Seq<char>>,
) -> LintView {
    LintView { rule_id, severity, message, path }
}

pub open spec fn result_views(rs: Seq<LintResult>) -> Seq<LintView> {
    rs.map_values(|r: LintResult| r@)
}

/// The marker printed before a finding of each severity.
pub open spec fn severity_marker(s: Severity) -> Seq<char> {
    match s {
        Severity::Error => "\u{274c}"@,
        Severity::Warning => "\u{26a0}\u{fe0f} "@,
        Severity::Info => "\u{2139}\u{fe0f} "@,
    }
}

/// The one-line form of a finding: marker, `[rule]`, message and `at path`.
pub open spec fn finding_line(r: LintView) -> Seq<char> {
    let head = severity_marker(r.severity) + " ["@ + r.rule_id + "] "@ + r.message;
    match r.path {
        Some(p) => head + " at "@ + p,
        None => head,
    }
}

impl LintResult {
    /// Constructs a finding with an optional path.
    pub fn new(rule_id: &str, severity: Severity, message: String, path: Option<&str>) -> (r:
        LintResult)
        ensures
            r@ == finding(
                rule_id@,
                severity,
                message@,
                match path {
                    Some(p) => Some(p@),
                    None => None,
                },
            ),
    {
        LintResult {
            rule_id: to_owned_string(rule_id),
            severity,
            message,
            path: match path {
                Some(p) => Some(to_owned_string(p)),
                None => None,
            },
        }
    }

    /// A copy of this finding.
    pub fn duplicate(&self) -> (r: LintResult)
        ensures
            r@ == self@,
    {
        LintResult {
            rule_id: self.rule_id.clone(),
            severity: self.severity,
            message: self.message.clone(),
            path: clone_opt(&self.path),
        }
    }

    /// The finding as one line of text.
    pub fn to_line(&self) -> (r: String)
        ensures
            r@ == finding_line(self@),
    {
        let mut s = String::new();
        match self.severity {
            Severity::Error => push_str(&mut s, "\u{274c}"),
            Severity::Warning => push_str(&mut s, "\u{26a0}\u{fe0f} "),
            Severity::Info => push_str(&mut s, "\u{2139}\u{fe0f} "),
        }
        push_str(&mut s, " [");
        push_str(&mut s, self.rule_id.as_str());
        push_str(&mut s, "] ");
        push_str(&mut s, self.message.as_str());
        match &self.path {
            Some(p) => {
                push_str(&mut s, " at ");
                push_str(&mut s, p.as_str());
            },
            None => {},
        }
        assert(s@ =~= finding_line(self@));
        s
    }
}

/// Number of findings of severity `s`.
pub open spec fn count_severity(rs: Seq<LintView>, s: Severity) -> nat
    decreases rs.len(),
{
    if rs.len() == 0 {
        0
    } else {
        count_severity(rs.drop_last(), s) + if rs.last().severity == s {
            1nat
        } else {
            0nat
        }
    }
}

proof fn lemma_count_le(rs: Seq<LintView>, s: Severity)
    ensures
        count_severity(rs, s) <= rs.len(),
    decreases rs.len(),
{
    if rs.len() > 0 {
        lemma_count_le(rs.drop_last(), s);
    }
}

/// Aggregated counts by severity.
#[derive(Debug, Clone, Copy, PartialEq, Eq, Structural)]
pub struct Summary {
    /// Number of error findings.
    pub errors: usize,
    /// Number of warning findings.
    pub warnings: usize,
    /// Number of info findings.
    pub info: usize,
}

impl Summary {
    /// Counts the findings of each severity.
    pub fn from_results(results: &[LintResult]) -> (r: Summary)
        ensures
            r.errors == count_severity(result_views(results@), Severity::Error),
            r.warnings == count_severity(result_views(results@), Severity::Warning),
            r.info == count_severity(result_views(results@), Severity::Info),
    {
        let mut summary = Summary { errors: 0, warnings: 0, info: 0 };
        let mut i: usize = 0;
        while i < results.len()
            invariant
                i <= results@.len(),
                summary.errors == count_severity(result_views(results@.take(i as int)), Severity::Error),
                summary.warnings == count_severity(
                    result_views(results@.take(i as int)),
                    Severity::Warning,
                ),
                summary.info == count_severity(result_views(results@.take(i as int)), Severity::Info),
            decreases results.len() - i,
        {
            proof {
                let prev = result_views(results@.take(i as int));
                let next = result_views(results@.take(i + 1));
                assert(next.drop_last() =~= prev);
                assert(next.last() == results@[i as int]@);
                lemma_count_le(prev, Severity::Error);
                lemma_count_le(prev, Severity::Warning);
                lemma_count_le(prev, Severity::Info);
            }
            match results[i].severity {
                Severity::Error => summary.errors = summary.errors + 1,
                Severity::Warning => summary.warnings = summary.warnings + 1,
                Severity::Info => summary.info = summary.info + 1,
            }
            i += 1;
        }
        assert(results@.take(results@.len() as int) =~= results@);
        summary
    }
}

} // verus!
