//! Built-in connector lint rules.
use vstd::prelude::*;
use vstd::utf8::encode_utf8;
use crate::json::{JsonObject, JsonValue, JsonView, entries_get, has_key, lemma_members_view_index};
use crate::linter::types::{LintResult, LintView, Severity, finding, result_views};
use crate::text::{ascii_lower, concat3, contains, decimal, i64_to_string, is_ascii_alphanumeric,
    parse_i64, parse_i64_spec, str_contains, str_eq, to_ascii_lowercase, to_owned_string};

verus! {

broadcast use vstd::string::group_string_axioms;

/// Which check a rule runs.
#[derive(Debug, Clone, Copy, PartialEq, Eq, Structural)]
pub enum RuleCheck {
    RequiredFields,
    NamingConvention,
    TasksMax,
    SnapshotMode,
    SensitiveData,
}

/// A named lint rule with its check.
pub struct Rule {
    /// Stable rule identifier.
    pub id: &'static str,
    /// Default severity when no override is configured.
    pub severity: Severity,
    /// The check the rule runs.
    pub check: RuleCheck,
}

pub struct RuleView {
    pub id: Seq<char>,
    pub severity: Severity,
    pub check: RuleCheck,
}

impl View for Rule {
    type V = RuleView;

    open spec fn view(&self) -> RuleView {
        RuleView { id: self.id@, severity: self.severity, check: self.check }
    }
}

pub open spec fn rule_views(rs: Seq<Rule>) -> Seq<RuleView> {
    rs.map_values(|r: Rule| r@)
}

/// The built-in rules, in the order they run.
pub open spec fn builtin_rule_views() -> Seq<RuleView> {
    seq![
        RuleView { id: "required-field"@, severity: Severity::Error, check: RuleCheck::RequiredFields },
        RuleView { id: "naming-convention"@, severity: Severity::Warning, check: RuleCheck::NamingConvention },
        RuleView { id: "tasks-max-value"@, severity: Severity::Warning, check: RuleCheck::TasksMax },
        RuleView { id: "debezium-snapshot-mode"@, severity: Severity::Warning, check: RuleCheck::SnapshotMode },
        RuleView { id: "sensitive-data"@, severity: Severity::Warning, check: RuleCheck::SensitiveData },
    ]
}

// ---------------------------------------------------------------------------
// What each rule finds
// ---------------------------------------------------------------------------

/// `value_as_str`: the text of a string, number or boolean.
pub open spec fn value_text(v: JsonView) -> Option<Seq<char>> {
    match v {
        JsonView::String(s) => Some(s),
        JsonView::Number(n) => Some(n.text),
        JsonView::Bool(b) => Some(if b { "true"@ } else { "false"@ }),
        _ => None,
    }
}

pub open spec fn missing_field(cfg: Seq<(Seq<char>, JsonView)>, field: Seq<char>) -> Seq<LintView> {
    if has_key(cfg, field) {
        seq![]
    } else {
        seq![finding("required-field"@, Severity::Error, "Missing required field: "@ + field, Some(field))]
    }
}

/// Findings of `required-field`: `name` and `connector.class` must be present.
pub open spec fn required_field_findings(cfg: Seq<(Seq<char>, JsonView)>) -> Seq<LintView> {
    missing_field(cfg, "name"@) + missing_field(cfg, "connector.class"@)
}

/// Characters allowed in a connector name.
pub open spec fn name_char_ok(c: char) -> bool {
    is_ascii_alphanumeric(c) || c == '-' || c == '_'
}

/// Findings of `naming-convention` on a string `name`.
pub open spec fn naming_findings(cfg: Seq<(Seq<char>, JsonView)>) -> Seq<LintView> {
    match entries_get(cfg, "name"@) {
        Some(JsonView::String(name)) => {
            let bad_chars: Seq<LintView> = if forall|i: int| 0 <= i < name.len() ==> name_char_ok(#[trigger] name[i]) {
                seq![]
            } else {
                seq![finding("naming-convention"@, Severity::Warning,
                    "Connector name '"@ + name + "' contains invalid characters"@, Some("name"@))]
            };
            let too_long: Seq<LintView> = if (encode_utf8(name).len() as usize) > 64 {
                seq![finding("naming-convention"@, Severity::Warning,
                    "Connector name '"@ + name + "' is too long (max 64 characters)"@, Some("name"@))]
            } else {
                seq![]
            };
            bad_chars + too_long
        },
        _ => seq![],
    }
}

/// How `tasks.max` reads as an integer.
pub open spec fn tasks_reading(v: JsonView) -> Option<i64> {
    match v {
        JsonView::Number(n) => n.int,
        JsonView::String(s) => parse_i64_spec(s),
        _ => None,
    }
}

/// Findings of `tasks-max-value`.
pub open spec fn tasks_max_findings(cfg: Seq<(Seq<char>, JsonView)>) -> Seq<LintView> {
    match entries_get(cfg, "tasks.max"@) {
        None => seq![],
        Some(v) => match tasks_reading(v) {
            None => seq![finding("tasks-max-value"@, Severity::Error,
                "tasks.max must be a valid integer"@, Some("tasks.max"@))],
            Some(t) => if t < 1 {
                seq![finding("tasks-max-value"@, Severity::Error, "tasks.max must be at least 1"@,
                    Some("tasks.max"@))]
            } else if t > 10 {
                seq![finding("tasks-max-value"@, Severity::Warning,
                    "tasks.max is "@ + decimal(t as int) + ", which may be too high"@, Some("tasks.max"@))]
            } else {
                seq![]
            },
        },
    }
}

/// The recognised Debezium `snapshot.mode` values.
pub open spec fn valid_snapshot_mode(m: Seq<char>) -> bool {
    m == "initial"@ || m == "always"@ || m == "never"@ || m == "when_needed"@ || m == "schema_only"@
}

pub open spec fn member_text(cfg: Seq<(Seq<char>, JsonView)>, key: Seq<char>) -> Option<Seq<char>> {
    match entries_get(cfg, key) {
        Some(v) => value_text(v),
        None => None,
    }
}

/// Findings of `debezium-snapshot-mode`: a Debezium connector's mode must be known.
pub open spec fn snapshot_mode_findings(cfg: Seq<(Seq<char>, JsonView)>) -> Seq<LintView> {
    match member_text(cfg, "connector.class"@) {
        None => seq![],
        Some(cls) => if !contains(ascii_lower(cls), "debezium"@) {
            seq![]
        } else {
            match member_text(cfg, "snapshot.mode"@) {
                None => seq![],
                Some(m) => if valid_snapshot_mode(m) {
                    seq![]
                } else {
                    seq![finding("debezium-snapshot-mode"@, Severity::Warning,
                        "Unknown snapshot.mode '"@ + m + "'. Valid: initial, always, never, when_needed, schema_only"@,
                        Some("snapshot.mode"@))]
                },
            }
        },
    }
}

/// A key that names a secret.
pub open spec fn sensitive_key(key: Seq<char>) -> bool {
    let l = ascii_lower(key);
    contains(l, "password"@) || contains(l, "secret"@) || contains(l, "key"@) || contains(l, "token"@)
}

/// A value that holds a secret rather than a placeholder.
pub open spec fn sensitive_value(v: JsonView) -> bool {
    match v {
        JsonView::String(t) => t.len() > 0 && t != "${env:VAR}"@ && t != "REPLACE_ME"@,
        _ => false,
    }
}

pub open spec fn sensitive_entry_findings(e: (Seq<char>, JsonView)) -> Seq<LintView> {
    if sensitive_key(e.0) && sensitive_value(e.1) {
        seq![finding("sensitive-data"@, Severity::Warning,
            "Potential sensitive data in '"@ + e.0 + "'. Consider using environment variables"@,
            Some(e.0))]
    } else {
        seq![]
    }
}

/// Findings of `sensitive-data`, in member order.
pub open spec fn sensitive_findings(cfg: Seq<(Seq<char>, JsonView)>) -> Seq<LintView>
    decreases cfg.len(),
{
    if cfg.len() == 0 {
        seq![]
    } else {
        sensitive_findings(cfg.drop_last()) + sensitive_entry_findings(cfg.last())
    }
}

/// What a check finds in a configuration.
pub open spec fn check_findings(check: RuleCheck, cfg: Seq<(Seq<char>, JsonView)>) -> Seq<LintView> {
    match check {
        RuleCheck::RequiredFields => required_field_findings(cfg),
        RuleCheck::NamingConvention => naming_findings(cfg),
        RuleCheck::TasksMax => tasks_max_findings(cfg),
        RuleCheck::SnapshotMode => snapshot_mode_findings(cfg),
        RuleCheck::SensitiveData => sensitive_findings(cfg),
    }
}

// ---------------------------------------------------------------------------
// The checks
// ---------------------------------------------------------------------------

impl Rule {
    /// Runs the rule against a parsed connector configuration.
    pub fn check(&self, config: &JsonObject) -> (r: Vec<LintResult>)
        ensures
            result_views(r@) == check_findings(self.check, config@),
    {
        match self.check {
            RuleCheck::RequiredFields => check_required_fields(config),
            RuleCheck::NamingConvention => check_naming_convention(config),
            RuleCheck::TasksMax => check_tasks_max(config),
            RuleCheck::SnapshotMode => check_snapshot_mode(config),
            RuleCheck::SensitiveData => check_sensitive_data(config),
        }
    }
}

/// The built-in rules.
pub fn builtin_rules() -> (r: Vec<Rule>)
    ensures
        rule_views(r@) == builtin_rule_views(),
{
    let mut v: Vec<Rule> = Vec::new();
    v.push(Rule { id: "required-field", severity: Severity::Error, check: RuleCheck::RequiredFields });
    v.push(Rule { id: "naming-convention", severity: Severity::Warning, check: RuleCheck::NamingConvention });
    v.push(Rule { id: "tasks-max-value", severity: Severity::Warning, check: RuleCheck::TasksMax });
    v.push(Rule { id: "debezium-snapshot-mode", severity: Severity::Warning, check: RuleCheck::SnapshotMode });
    v.push(Rule { id: "sensitive-data", severity: Severity::Warning, check: RuleCheck::SensitiveData });
    assert(rule_views(v@) =~= builtin_rule_views());
    v
}

/// `value_as_str`.
pub fn value_as_str(value: &JsonValue) -> (r: Option<String>)
    ensures
        match r {
            Some(s) => value_text(value@) == Some(s@),
            None => value_text(value@) is None,
        },
{
    match value {
        JsonValue::String(s) => Some(s.clone()),
        JsonValue::Number(n) => Some(n.text.clone()),
        JsonValue::Bool(b) => if *b {
            Some(to_owned_string("true"))
        } else {
            Some(to_owned_string("false"))
        },
        _ => None,
    }
}

fn push_missing(config: &JsonObject, field: &str, out: &mut Vec<LintResult>)
    ensures
        result_views(final(out)@) == result_views(old(out)@) + missing_field(config@, field@),
{
    let ghost before = result_views(out@);
    if !config.contains_key(field) {
        let msg = concat3("Missing required field: ", field, "");
        assert(msg@ =~= "Missing required field: "@ + field@) by {
            reveal_strlit("");
        }
        out.push(LintResult::new("required-field", Severity::Error, msg, Some(field)));
    }
    assert(result_views(out@) =~= before + missing_field(config@, field@));
}

fn check_required_fields(config: &JsonObject) -> (r: Vec<LintResult>)
    ensures
        result_views(r@) == required_field_findings(config@),
{
    let mut results: Vec<LintResult> = Vec::new();
    assert(result_views(results@) =~= Seq::<LintView>::empty());
    push_missing(config, "name", &mut results);
    push_missing(config, "connector.class", &mut results);
    assert(result_views(results@) =~= required_field_findings(config@));
    results
}

fn name_chars_ok(name: &str) -> (r: bool)
    ensures
        r == forall|i: int| 0 <= i < name@.len() ==> name_char_ok(#[trigger] name@[i]),
{
    let cs = crate::text::chars_of(name);
    let mut i: usize = 0;
    while i < cs.len()
        invariant
            i <= cs.len(),
            cs@ == name@,
            forall|j: int| 0 <= j < i ==> name_char_ok(#[trigger] name@[j]),
        decreases cs.len() - i,
    {
        let c = cs[i];
        if !(('0' <= c && c <= '9') || ('a' <= c && c <= 'z') || ('A' <= c && c <= 'Z') || c == '-' || c == '_') {
            assert(!name_char_ok(name@[i as int]));
            return false;
        }
        i += 1;
    }
    true
}

fn check_naming_convention(config: &JsonObject) -> (r: Vec<LintResult>)
    ensures
        result_views(r@) == naming_findings(config@),
{
    let mut results: Vec<LintResult> = Vec::new();
    assert(result_views(results@) =~= Seq::<LintView>::empty());
    let name = match config.get("name") {
        Some(JsonValue::String(n)) => n,
        _ => {
            return results;
        },
    };
    let ghost nm = name@;
    assert(entries_get(config@, "name"@) == Some(JsonView::String(nm)));
    let ok = name_chars_ok(name.as_str());
    if !ok {
        let msg = concat3("Connector name '", name.as_str(), "' contains invalid characters");
        results.push(LintResult::new("naming-convention", Severity::Warning, msg, Some("name")));
    }
    let ghost first = result_views(results@);
    let byte_len = name.as_str().len();
    assert(byte_len == encode_utf8(nm).len() as usize);
    if byte_len > 64 {
        let msg = concat3("Connector name '", name.as_str(), "' is too long (max 64 characters)");
        results.push(LintResult::new("naming-convention", Severity::Warning, msg, Some("name")));
    }
    assert(result_views(results@) =~= naming_findings(config@));
    results
}

fn check_tasks_max(config: &JsonObject) -> (r: Vec<LintResult>)
    ensures
        result_views(r@) == tasks_max_findings(config@),
{
    let raw = match config.get("tasks.max") {
        Some(v) => v,
        None => {
            let r: Vec<LintResult> = Vec::new();
            assert(result_views(r@) =~= tasks_max_findings(config@));
            return r;
        },
    };
    let parsed = match raw {
        JsonValue::Number(n) => n.int,
        JsonValue::String(s) => parse_i64(s.as_str()),
        _ => None,
    };
    let mut r: Vec<LintResult> = Vec::new();
    match parsed {
        None => {
            r.push(LintResult::new("tasks-max-value", Severity::Error,
                to_owned_string("tasks.max must be a valid integer"), Some("tasks.max")));
        },
        Some(tasks) => {
            if tasks < 1 {
                r.push(LintResult::new("tasks-max-value", Severity::Error,
                    to_owned_string("tasks.max must be at least 1"), Some("tasks.max")));
            } else if tasks > 10 {
                let digits = i64_to_string(tasks);
                let msg = concat3("tasks.max is ", digits.as_str(), ", which may be too high");
                r.push(LintResult::new("tasks-max-value", Severity::Warning, msg, Some("tasks.max")));
            }
        },
    }
    assert(result_views(r@) =~= tasks_max_findings(config@));
    r
}

fn is_valid_snapshot_mode(m: &str) -> (r: bool)
    ensures
        r == valid_snapshot_mode(m@),
{
    str_eq(m, "initial") || str_eq(m, "always") || str_eq(m, "never") || str_eq(m, "when_needed")
        || str_eq(m, "schema_only")
}

fn member_as_text(config: &JsonObject, key: &str) -> (r: Option<String>)
    ensures
        match r {
            Some(s) => member_text(config@, key@) == Some(s@),
            None => member_text(config@, key@) is None,
        },
{
    match config.get(key) {
        Some(v) => value_as_str(v),
        None => None,
    }
}

fn check_snapshot_mode(config: &JsonObject) -> (r: Vec<LintResult>)
    ensures
        result_views(r@) == snapshot_mode_findings(config@),
{
    let mut r: Vec<LintResult> = Vec::new();
    assert(result_views(r@) =~= Seq::<LintView>::empty());
    let cls = match member_as_text(config, "connector.class") {
        Some(c) => c,
        None => {
            return r;
        },
    };
    let lower = to_ascii_lowercase(cls.as_str());
    if !str_contains(lower.as_str(), "debezium") {
        return r;
    }
    let mode = match member_as_text(config, "snapshot.mode") {
        Some(m) => m,
        None => {
            return r;
        },
    };
    if is_valid_snapshot_mode(mode.as_str()) {
        return r;
    }
    let msg = concat3("Unknown snapshot.mode '", mode.as_str(),
        "'. Valid: initial, always, never, when_needed, schema_only");
    r.push(LintResult::new("debezium-snapshot-mode", Severity::Warning, msg, Some("snapshot.mode")));
    assert(result_views(r@) =~= snapshot_mode_findings(config@));
    r
}

fn is_sensitive_key(key: &str) -> (r: bool)
    ensures
        r == sensitive_key(key@),
{
    let l = to_ascii_lowercase(key);
    str_contains(l.as_str(), "password") || str_contains(l.as_str(), "secret") || str_contains(
        l.as_str(),
        "key",
    ) || str_contains(l.as_str(), "token")
}

fn is_sensitive_value(v: &JsonValue) -> (r: bool)
    ensures
        r == sensitive_value(v@),
{
    match v {
        JsonValue::String(t) => {
            let cs = crate::text::chars_of(t.as_str());
            cs.len() > 0 && !str_eq(t.as_str(), "${env:VAR}") && !str_eq(t.as_str(), "REPLACE_ME")
        },
        _ => false,
    }
}

fn check_sensitive_data(config: &JsonObject) -> (r: Vec<LintResult>)
    ensures
        result_views(r@) == sensitive_findings(config@),
{
    proof {
        lemma_members_view_index(config.entries@);
    }
    let ghost cfg = config@;
    let mut results: Vec<LintResult> = Vec::new();
    let mut i: usize = 0;
    assert(cfg.take(0) =~= Seq::<(Seq<char>, JsonView)>::empty());
    assert(result_views(results@) =~= Seq::<LintView>::empty());
    while i < config.entries.len()
        invariant
            i <= config.entries@.len(),
            cfg == config@,
            cfg.len() == config.entries@.len(),
            forall|m: int|
                0 <= m < config.entries@.len() ==> #[trigger] cfg[m] == (
                    config.entries@[m].0@,
                    config.entries@[m].1@,
                ),
            result_views(results@) == sensitive_findings(cfg.take(i as int)),
        decreases config.entries.len() - i,
    {
        let ghost before = result_views(results@);
        let key = &config.entries[i].0;
        let value = &config.entries[i].1;
        assert(cfg[i as int] == (key@, value@));
        if is_sensitive_key(key.as_str()) && is_sensitive_value(value) {
            let msg = concat3("Potential sensitive data in '", key.as_str(),
                "'. Consider using environment variables");
            results.push(LintResult::new("sensitive-data", Severity::Warning, msg, Some(key.as_str())));
        }
        assert(cfg.take(i + 1).drop_last() =~= cfg.take(i as int));
        assert(cfg.take(i + 1).last() == cfg[i as int]);
        assert(result_views(results@) =~= before + sensitive_entry_findings(cfg[i as int]));
        i += 1;
    }
    assert(cfg.take(cfg.len() as int) =~= cfg);
    results
}

} // verus!
