//! Validation reports: lint findings plus schema findings.
use vstd::prelude::*;
use crate::assoc::StringSet;
use crate::error::Error;
use crate::json::{JsonObject, JsonView};
use crate::linter::directives::{directive_rules, parse_lint_directives};
use crate::linter::engine::{ConnectorLinter, formatted_findings, lint_findings};
use crate::linter::rules::rule_views;
use crate::linter::types::{LintResult, LintView, Severity, Summary, count_severity, result_views};
use crate::parse::{ConfigFormat, config_document, is_parse_error, named, parse_config_text, with_name};
use crate::schema::{schema_findings, validate_schema};

verus! {

/// The outcome of validating one connector configuration.
pub struct ValidationReport {
    /// No finding is an error.
    pub valid: bool,
    /// Lint findings, then schema findings.
    pub results: Vec<LintResult>,
    pub summary: Summary,
    /// The human-readable report.
    pub formatted: String,
}

/// A report describes its findings exactly.
pub open spec fn reports(r: ValidationReport, rs: Seq<LintView>) -> bool {
    &&& result_views(r.results@) == rs
    &&& r.valid == (count_severity(rs, Severity::Error) == 0)
    &&& r.summary.errors == count_severity(rs, Severity::Error)
    &&& r.summary.warnings == count_severity(rs, Severity::Warning)
    &&& r.summary.info == count_severity(rs, Severity::Info)
    &&& r.formatted@ == formatted_findings(rs)
}

/// What validating a configuration finds: the linter's findings, then the
/// schema's.
pub open spec fn validation_findings(
    linter: ConnectorLinter,
    cfg: Seq<(Seq<char>, JsonView)>,
    disabled: Set<Seq<char>>,
) -> Seq<LintView> {
    lint_findings(linter.config, rule_views(linter.rules@), cfg, disabled) + schema_findings(cfg)
}

/// The report of a list of findings.
pub fn build_report(results: Vec<LintResult>) -> (r: ValidationReport)
    ensures
        reports(r, result_views(results@)),
{
    let summary = ConnectorLinter::summary(results.as_slice());
    let formatted = ConnectorLinter::format_results(results.as_slice());
    ValidationReport { valid: summary.errors == 0, results, summary, formatted }
}

fn append_results(a: &mut Vec<LintResult>, b: Vec<LintResult>)
    ensures
        result_views(final(a)@) == result_views(old(a)@) + result_views(b@),
{
    let ghost start = result_views(a@);
    let ghost all = result_views(b@);
    let mut i: usize = 0;
    assert(start + all.take(0) =~= start);
    while i < b.len()
        invariant
            i <= b@.len(),
            all == result_views(b@),
            result_views(a@) == start + all.take(i as int),
        decreases b.len() - i,
    {
        let x = b[i].duplicate();
        let ghost prev = result_views(a@);
        a.push(x);
        assert(result_views(a@) =~= prev.push(x@));
        assert(all.take(i + 1) =~= all.take(i as int).push(all[i as int]));
        i += 1;
    }
    assert(all.take(all.len() as int) =~= all);
}

/// Validates a parsed configuration: `connector_name` is supplied as `name`
/// when the configuration lacks one.
pub fn validate_config(linter: &ConnectorLinter, config: JsonObject, connector_name: Option<&str>) -> (r:
    ValidationReport)
    ensures
        reports(
            r,
            validation_findings(
                *linter,
                named(config@, match connector_name {
                    Some(n) => Some(n@),
                    None => None,
                }),
                Set::empty(),
            ),
        ),
{
    let config = with_name(config, connector_name);
    let none = StringSet::new();
    let mut results = linter.lint(&config, &none);
    append_results(&mut results, validate_schema(&config));
    build_report(results)
}

/// Validates configuration text, honouring its `lint-disable` comments.
pub fn validate_text(
    linter: &ConnectorLinter,
    text: &str,
    format: ConfigFormat,
    connector_name: Option<&str>,
) -> (r: Result<ValidationReport, Error>)
    ensures
        match config_document(text@, format) {
            Err(f) => r matches Err(e) && is_parse_error(e, f),
            Ok(es) => r matches Ok(report) && reports(
                report,
                validation_findings(
                    *linter,
                    named(es, match connector_name {
                        Some(n) => Some(n@),
                        None => None,
                    }),
                    directive_rules(text@),
                ),
            ),
        },
{
    let disabled_inline = parse_lint_directives(text);
    let config = parse_config_text(text, format)?;
    let config = with_name(config, connector_name);
    let mut results = linter.lint(&config, &disabled_inline);
    append_results(&mut results, validate_schema(&config));
    Ok(build_report(results))
}

} // verus!
