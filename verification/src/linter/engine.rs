//! The connector linter: runs the rules, applies the configuration, and
//! formats findings.
use vstd::prelude::*;
use crate::assoc::StringSet;
use crate::error::Error;
use crate::linter::directives::{directive_rules, parse_lint_directives};
use crate::parse::{ConfigFormat, config_document, is_parse_error, parse_config_text};
use crate::json::{JsonObject, JsonView, entries_get};
use crate::linter::config::{LinterConfig, effective_severity, rule_enabled};
use crate::linter::rules::{Rule, RuleView, builtin_rule_views, builtin_rules, check_findings, rule_views};
use crate::linter::types::{LintResult, LintView, Severity, Summary, count_severity, finding_line,
    result_views, severity_rank};
use crate::text::{concat3, decimal, join, join_strings, push_str, seq_lt, str_lt, to_owned_string,
    usize_to_string, views};

verus! {

broadcast use vstd::string::group_string_axioms;

/// Linter for Kafka Connect connector configurations.
pub struct ConnectorLinter {
    pub config: LinterConfig,
    pub rules: Vec<Rule>,
}

/// The connector's `name` when it is a string.
pub open spec fn connector_name(cfg: Seq<(Seq<char>, JsonView)>) -> Option<Seq<char>> {
    match entries_get(cfg, "name"@) {
        Some(v) => v.as_str(),
        None => None,
    }
}

/// Findings with their severities resolved through the configuration.
pub open spec fn resolve_severities(rs: Seq<LintView>, lcfg: LinterConfig, id: Seq<char>) -> Seq<LintView> {
    rs.map_values(|r: LintView| LintView { severity: effective_severity(lcfg, id, r.severity), ..r })
}

/// What one rule contributes: nothing when it is disabled inline, globally
/// or for this connector; otherwise its findings at their effective severity.
pub open spec fn rule_output(
    lcfg: LinterConfig,
    rule: RuleView,
    cfg: Seq<(Seq<char>, JsonView)>,
    disabled: Set<Seq<char>>,
) -> Seq<LintView> {
    if disabled.contains(rule.id) || !rule_enabled(lcfg, rule.id, connector_name(cfg)) {
        seq![]
    } else {
        resolve_severities(check_findings(rule.check, cfg), lcfg, rule.id)
    }
}

/// The findings of all rules, in rule order.
pub open spec fn lint_findings(
    lcfg: LinterConfig,
    rules: Seq<RuleView>,
    cfg: Seq<(Seq<char>, JsonView)>,
    disabled: Set<Seq<char>>,
) -> Seq<LintView>
    decreases rules.len(),
{
    if rules.len() == 0 {
        seq![]
    } else {
        lint_findings(lcfg, rules.drop_last(), cfg, disabled) + rule_output(lcfg, rules.last(), cfg, disabled)
    }
}

/// The order findings are printed in: by severity, then by rule ID.
pub open spec fn finding_before(a: LintView, b: LintView) -> bool {
    severity_rank(a.severity) < severity_rank(b.severity) || (severity_rank(a.severity)
        == severity_rank(b.severity) && seq_lt(a.rule_id, b.rule_id))
}

/// Where `x` goes in `sorted`: before the first finding it comes before.
pub open spec fn sorted_position(sorted: Seq<LintView>, x: LintView) -> int
    decreases sorted.len(),
{
    if sorted.len() == 0 {
        0
    } else if finding_before(x, sorted[0]) {
        0
    } else {
        1 + sorted_position(sorted.drop_first(), x)
    }
}

/// Findings in print order; findings that tie keep their order (a stable sort).
pub open spec fn sort_findings(rs: Seq<LintView>) -> Seq<LintView>
    decreases rs.len(),
{
    if rs.len() == 0 {
        seq![]
    } else {
        let prev = sort_findings(rs.drop_last());
        prev.insert(sorted_position(prev, rs.last()), rs.last())
    }
}

/// `Summary: E errors, W warnings, I info`.
pub open spec fn summary_line(rs: Seq<LintView>) -> Seq<char> {
    "Summary: "@ + decimal(count_severity(rs, Severity::Error) as int) + " errors, "@ + decimal(
        count_severity(rs, Severity::Warning) as int,
    ) + " warnings, "@ + decimal(count_severity(rs, Severity::Info) as int) + " info"@
}

/// The human-readable report of findings.
pub open spec fn formatted_findings(rs: Seq<LintView>) -> Seq<char> {
    if rs.len() == 0 {
        "\u{2705} No issues found"@
    } else {
        join(
            sort_findings(rs).map_values(|r: LintView| finding_line(r)) + seq![Seq::<char>::empty(), summary_line(rs)],
            "\n"@,
        )
    }
}

pub proof fn lemma_sorted_position_bound(sorted: Seq<LintView>, x: LintView)
    ensures
        0 <= sorted_position(sorted, x) <= sorted.len(),
    decreases sorted.len(),
{
    if sorted.len() > 0 {
        lemma_sorted_position_bound(sorted.drop_first(), x);
    }
}

pub proof fn lemma_sort_findings_len(rs: Seq<LintView>)
    ensures
        sort_findings(rs).len() == rs.len(),
    decreases rs.len(),
{
    if rs.len() > 0 {
        lemma_sort_findings_len(rs.drop_last());
        lemma_sorted_position_bound(sort_findings(rs.drop_last()), rs.last());
    }
}

fn finding_before_exec(a: &LintResult, b: &LintResult) -> (r: bool)
    ensures
        r == finding_before(a@, b@),
{
    let ra = a.severity.rank();
    let rb = b.severity.rank();
    ra < rb || (ra == rb && str_lt(a.rule_id.as_str(), b.rule_id.as_str()))
}

/// Inserts `x` at its place in `sorted`.
fn insert_sorted(sorted: &mut Vec<LintResult>, x: LintResult)
    ensures
        result_views(final(sorted)@) == result_views(old(sorted)@).insert(
            sorted_position(result_views(old(sorted)@), x@),
            x@,
        ),
{
    let ghost s = result_views(sorted@);
    let mut i: usize = 0;
    assert(s.skip(0) =~= s);
    while i < sorted.len()
        invariant
            i <= sorted@.len(),
            s == result_views(sorted@),
            sorted_position(s, x@) == i + sorted_position(s.skip(i as int), x@),
        ensures
            i <= sorted@.len(),
            s == result_views(sorted@),
            sorted_position(s, x@) == i + sorted_position(s.skip(i as int), x@),
            i < sorted@.len() ==> finding_before(x@, s[i as int]),
        decreases sorted.len() - i,
    {
        let ghost rest = s.skip(i as int);
        assert(rest[0] == sorted@[i as int]@);
        if finding_before_exec(&x, &sorted[i]) {
            break;
        }
        assert(rest.drop_first() =~= s.skip(i + 1));
        i += 1;
    }
    proof {
        let rest = s.skip(i as int);
        if i < sorted.len() {
            assert(rest[0] == s[i as int]);
        } else {
            assert(rest.len() == 0);
        }
    }
    assert(sorted_position(s, x@) == i);
    let ghost xv = x@;
    sorted.insert(i, x);
    assert(result_views(sorted@) =~= s.insert(i as int, xv));
}

impl ConnectorLinter {
    /// A linter with the built-in rules and the given configuration.
    pub fn with_config(config: LinterConfig) -> (r: ConnectorLinter)
        ensures
            r.config == config,
            rule_views(r.rules@) == builtin_rule_views(),
    {
        ConnectorLinter { config, rules: builtin_rules() }
    }

    /// Lints configuration text (JSON or YAML), honouring its comment directives.
    pub fn lint_text(&self, text: &str, format: ConfigFormat) -> (r: Result<Vec<LintResult>, Error>)
        ensures
            match config_document(text@, format) {
                Err(f) => r matches Err(e) && is_parse_error(e, f),
                Ok(es) => r matches Ok(v) && result_views(v@) == lint_findings(
                    self.config,
                    rule_views(self.rules@),
                    es,
                    directive_rules(text@),
                ),
            },
    {
        let disabled_inline = parse_lint_directives(text);
        let config = parse_config_text(text, format)?;
        Ok(self.lint(&config, &disabled_inline))
    }

    /// Lints a parsed connector configuration; rules named in
    /// `disabled_inline` are skipped.
    pub fn lint(&self, config: &JsonObject, disabled_inline: &StringSet) -> (r: Vec<LintResult>)
        ensures
            result_views(r@) == lint_findings(self.config, rule_views(self.rules@), config@, disabled_inline@),
    {
        let name: Option<&str> = match config.get("name") {
            Some(v) => match v.as_str() {
                Some(s) => Some(s.as_str()),
                None => None,
            },
            None => None,
        };
        assert(match name { Some(n) => Some(n@), None => None } == connector_name(config@));
        let ghost rv = rule_views(self.rules@);
        let mut results: Vec<LintResult> = Vec::new();
        let mut i: usize = 0;
        assert(rv.take(0) =~= Seq::<RuleView>::empty());
        assert(result_views(results@) =~= Seq::<LintView>::empty());
        while i < self.rules.len()
            invariant
                i <= self.rules@.len(),
                rv == rule_views(self.rules@),
                match name { Some(n) => Some(n@), None => None } == connector_name(config@),
                result_views(results@) == lint_findings(self.config, rv.take(i as int), config@, disabled_inline@),
            decreases self.rules.len() - i,
        {
            let rule = &self.rules[i];
            let ghost before = result_views(results@);
            assert(rv.take(i + 1).drop_last() =~= rv.take(i as int));
            assert(rv.take(i + 1).last() == rule@);
            if !disabled_inline.contains(rule.id) && self.config.is_rule_enabled(rule.id, name) {
                let found = rule.check(config);
                let ghost fv = result_views(found@);
                let mut j: usize = 0;
                while j < found.len()
                    invariant
                        j <= found@.len(),
                        fv == result_views(found@),
                        result_views(results@) == before + resolve_severities(fv.take(j as int), self.config, rule.id@),
                    decreases found.len() - j,
                {
                    let mut item = found[j].duplicate();
                    item.severity = self.config.severity_for(rule.id, item.severity);
                    let ghost prev = result_views(results@);
                    results.push(item);
                    assert(result_views(results@) =~= prev.push(item@));
                    assert(resolve_severities(fv.take(j + 1), self.config, rule.id@) =~= resolve_severities(
                        fv.take(j as int),
                        self.config,
                        rule.id@,
                    ).push(item@));
                    j += 1;
                }
                assert(fv.take(fv.len() as int) =~= fv);
            } else {
                assert(result_views(results@) =~= before + Seq::<LintView>::empty());
            }
            i += 1;
        }
        assert(rv.take(rv.len() as int) =~= rv);
        results
    }

    /// Summarises findings by severity.
    pub fn summary(results: &[LintResult]) -> (r: Summary)
        ensures
            r.errors == count_severity(result_views(results@), Severity::Error),
            r.warnings == count_severity(result_views(results@), Severity::Warning),
            r.info == count_severity(result_views(results@), Severity::Info),
    {
        Summary::from_results(results)
    }

    /// Formats findings for human-readable output.
    pub fn format_results(results: &[LintResult]) -> (r: String)
        ensures
            r@ == formatted_findings(result_views(results@)),
    {
        if results.len() == 0 {
            return to_owned_string("\u{2705} No issues found");
        }
        let ghost rs = result_views(results@);
        let mut sorted: Vec<LintResult> = Vec::new();
        let mut i: usize = 0;
        assert(rs.take(0) =~= Seq::<LintView>::empty());
        assert(result_views(sorted@) =~= Seq::<LintView>::empty());
        while i < results.len()
            invariant
                i <= results@.len(),
                rs == result_views(results@),
                result_views(sorted@) == sort_findings(rs.take(i as int)),
            decreases results.len() - i,
        {
            assert(rs.take(i + 1).drop_last() =~= rs.take(i as int));
            assert(rs.take(i + 1).last() == results@[i as int]@);
            let x = results[i].duplicate();
            insert_sorted(&mut sorted, x);
            i += 1;
        }
        assert(rs.take(rs.len() as int) =~= rs);
        proof {
            lemma_sort_findings_len(rs);
        }
        let mut lines: Vec<String> = Vec::new();
        let mut k: usize = 0;
        while k < sorted.len()
            invariant
                k <= sorted@.len(),
                views(lines@) == result_views(sorted@).take(k as int).map_values(|r: LintView| finding_line(r)),
            decreases sorted.len() - k,
        {
            let line = sorted[k].to_line();
            let ghost prev = views(lines@);
            lines.push(line);
            assert(views(lines@) =~= prev.push(line@));
            assert(result_views(sorted@).take(k + 1) =~= result_views(sorted@).take(k as int).push(sorted@[k as int]@));
            k += 1;
        }
        assert(result_views(sorted@).take(sorted@.len() as int) =~= result_views(sorted@));
        let summary = Self::summary(results);
        let e = usize_to_string(summary.errors);
        let w = usize_to_string(summary.warnings);
        let n = usize_to_string(summary.info);
        let mut last = concat3("Summary: ", e.as_str(), " errors, ");
        push_str(&mut last, w.as_str());
        push_str(&mut last, " warnings, ");
        push_str(&mut last, n.as_str());
        push_str(&mut last, " info");
        let ghost body = views(lines@);
        lines.push(String::new());
        lines.push(last);
        assert(views(lines@) =~= body + seq![Seq::<char>::empty(), summary_line(rs)]);
        join_strings(&lines, "\n")
    }
}

} // verus!
