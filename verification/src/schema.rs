//! Schema checks of connector configurations (field presence and types).
use vstd::prelude::*;
use crate::json::{JsonObject, JsonValue, JsonView, entries_get};
use crate::linter::rules::{tasks_reading, valid_snapshot_mode};
use crate::linter::types::{LintResult, LintView, Severity, finding, result_views};
use crate::text::{concat2, contains, parse_i64, str_contains, str_eq, to_owned_string};

verus! {

broadcast use vstd::string::group_string_axioms;

/// The rule ID of schema findings.
pub const SCHEMA_RULE: &'static str = "pydantic-schema";

/// A schema finding at a field.
pub open spec fn field_finding(path: Seq<char>, message: Seq<char>) -> LintView {
    finding(SCHEMA_RULE@, Severity::Error, message, Some(path))
}

/// A field that must hold a string.
pub open spec fn string_field_findings(cfg: Seq<(Seq<char>, JsonView)>, key: Seq<char>) -> Seq<LintView> {
    match entries_get(cfg, key) {
        Some(JsonView::String(_)) => seq![],
        None => seq![field_finding(key, "Field required for field "@ + key)],
        Some(_) => seq![field_finding(key, "Input should be a valid string for field "@ + key)],
    }
}

pub open spec fn string_fields_findings(cfg: Seq<(Seq<char>, JsonView)>, keys: Seq<Seq<char>>) -> Seq<LintView>
    decreases keys.len(),
{
    if keys.len() == 0 {
        seq![]
    } else {
        string_fields_findings(cfg, keys.drop_last()) + string_field_findings(cfg, keys.last())
    }
}

/// `tasks.max`, when present, must be an integer of at least 1.
pub open spec fn tasks_schema_findings(cfg: Seq<(Seq<char>, JsonView)>) -> Seq<LintView> {
    match entries_get(cfg, "tasks.max"@) {
        None => seq![],
        Some(v) => match tasks_reading(v) {
            None => seq![field_finding("tasks.max"@, "Input should be a valid integer for field tasks.max"@)],
            Some(t) => if t < 1 {
                seq![field_finding("tasks.max"@, "Input should be greater than or equal to 1 for field tasks.max"@)]
            } else {
                seq![]
            },
        },
    }
}

pub open spec fn postgres_fields() -> Seq<Seq<char>> {
    seq!["database.hostname"@, "database.user"@, "database.password"@, "database.dbname"@, "topic.prefix"@]
}

/// The Debezium PostgreSQL connector's fields.
pub open spec fn postgres_findings(cfg: Seq<(Seq<char>, JsonView)>) -> Seq<LintView> {
    string_fields_findings(cfg, postgres_fields()) + match entries_get(cfg, "snapshot.mode"@) {
        Some(JsonView::String(m)) => if valid_snapshot_mode(m) {
            seq![]
        } else {
            seq![field_finding("snapshot.mode"@,
                "Value error, snapshot.mode must be one of [\"initial\", \"always\", \"never\", \"when_needed\", \"schema_only\"] for field snapshot.mode"@)]
        },
        _ => seq![],
    }
}

pub open spec fn iceberg_fields() -> Seq<Seq<char>> {
    seq!["topics"@, "iceberg.catalog.warehouse"@]
}

/// Checks that depend on `connector.class`.
pub open spec fn class_findings(cfg: Seq<(Seq<char>, JsonView)>) -> Seq<LintView> {
    match entries_get(cfg, "connector.class"@) {
        Some(JsonView::String(c)) => if contains(c, "PostgresConnector"@) {
            postgres_findings(cfg)
        } else if contains(c, "IcebergSinkConnector"@) {
            string_fields_findings(cfg, iceberg_fields())
        } else {
            seq![]
        },
        _ => seq![],
    }
}

/// All schema findings of a configuration.
pub open spec fn schema_findings(cfg: Seq<(Seq<char>, JsonView)>) -> Seq<LintView> {
    string_field_findings(cfg, "name"@) + string_field_findings(cfg, "connector.class"@)
        + tasks_schema_findings(cfg) + class_findings(cfg)
}

/// A schema finding at a field.
pub fn field_error(path: &str, message: String) -> (r: LintResult)
    ensures
        r@ == field_finding(path@, message@),
{
    LintResult::new(SCHEMA_RULE, Severity::Error, message, Some(path))
}

fn require_string(config: &JsonObject, key: &str, out: &mut Vec<LintResult>)
    ensures
        result_views(final(out)@) == result_views(old(out)@) + string_field_findings(config@, key@),
{
    let ghost before = result_views(out@);
    match config.get(key) {
        Some(JsonValue::String(_)) => {},
        None => {
            out.push(field_error(key, concat2("Field required for field ", key)));
        },
        Some(_) => {
            out.push(field_error(key, concat2("Input should be a valid string for field ", key)));
        },
    }
    assert(result_views(out@) =~= before + string_field_findings(config@, key@));
}

fn require_string_keys(config: &JsonObject, keys: &Vec<&str>, out: &mut Vec<LintResult>)
    ensures
        result_views(final(out)@) == result_views(old(out)@) + string_fields_findings(
            config@,
            keys@.map_values(|k: &str| k@),
        ),
{
    let ghost ks = keys@.map_values(|k: &str| k@);
    let ghost start = result_views(out@);
    let mut i: usize = 0;
    assert(ks.take(0) =~= Seq::<Seq<char>>::empty());
    assert(start + string_fields_findings(config@, ks.take(0)) =~= start);
    while i < keys.len()
        invariant
            i <= keys@.len(),
            ks == keys@.map_values(|k: &str| k@),
            result_views(out@) == start + string_fields_findings(config@, ks.take(i as int)),
        decreases keys.len() - i,
    {
        assert(ks.take(i + 1).drop_last() =~= ks.take(i as int));
        assert(ks.take(i + 1).last() == keys@[i as int]@);
        let ghost mid = result_views(out@);
        require_string(config, keys[i], out);
        assert(result_views(out@) =~= start + string_fields_findings(config@, ks.take(i + 1)));
        i += 1;
    }
    assert(ks.take(ks.len() as int) =~= ks);
}

fn validate_tasks_max(config: &JsonObject, out: &mut Vec<LintResult>)
    ensures
        result_views(final(out)@) == result_views(old(out)@) + tasks_schema_findings(config@),
{
    let ghost before = result_views(out@);
    if let Some(value) = config.get("tasks.max") {
        let parsed = match value {
            JsonValue::Number(n) => n.int,
            JsonValue::String(s) => parse_i64(s.as_str()),
            _ => None,
        };
        match parsed {
            None => out.push(field_error("tasks.max",
                to_owned_string("Input should be a valid integer for field tasks.max"))),
            Some(t) => if t < 1 {
                out.push(field_error("tasks.max",
                    to_owned_string("Input should be greater than or equal to 1 for field tasks.max")));
            },
        }
    }
    assert(result_views(out@) =~= before + tasks_schema_findings(config@));
}

fn is_snapshot_mode(m: &str) -> (r: bool)
    ensures
        r == valid_snapshot_mode(m@),
{
    str_eq(m, "initial") || str_eq(m, "always") || str_eq(m, "never") || str_eq(m, "when_needed")
        || str_eq(m, "schema_only")
}

fn validate_debezium_postgres(config: &JsonObject, out: &mut Vec<LintResult>)
    ensures
        result_views(final(out)@) == result_views(old(out)@) + postgres_findings(config@),
{
    let ghost before = result_views(out@);
    let keys = vec!["database.hostname", "database.user", "database.password", "database.dbname", "topic.prefix"];
    assert(keys@.map_values(|k: &str| k@) =~= postgres_fields());
    require_string_keys(config, &keys, out);
    let ghost mid = result_views(out@);
    let ghost tail: Seq<LintView> = match entries_get(config@, "snapshot.mode"@) {
        Some(JsonView::String(m)) => if valid_snapshot_mode(m) {
            seq![]
        } else {
            seq![field_finding("snapshot.mode"@,
                "Value error, snapshot.mode must be one of [\"initial\", \"always\", \"never\", \"when_needed\", \"schema_only\"] for field snapshot.mode"@)]
        },
        _ => seq![],
    };
    match config.get("snapshot.mode") {
        Some(JsonValue::String(m)) => {
            if !is_snapshot_mode(m.as_str()) {
                out.push(field_error("snapshot.mode", to_owned_string(
                    "Value error, snapshot.mode must be one of [\"initial\", \"always\", \"never\", \"when_needed\", \"schema_only\"] for field snapshot.mode")));
            }
        },
        _ => {},
    }
    assert(result_views(out@) =~= mid + tail);
    assert(result_views(out@) =~= before + postgres_findings(config@));
}

fn validate_iceberg_sink(config: &JsonObject, out: &mut Vec<LintResult>)
    ensures
        result_views(final(out)@) == result_views(old(out)@) + string_fields_findings(config@, iceberg_fields()),
{
    let keys = vec!["topics", "iceberg.catalog.warehouse"];
    assert(keys@.map_values(|k: &str| k@) =~= iceberg_fields());
    require_string_keys(config, &keys, out);
}

/// Schema checks of a connector configuration.
pub fn validate_schema(config: &JsonObject) -> (r: Vec<LintResult>)
    ensures
        result_views(r@) == schema_findings(config@),
{
    let mut results: Vec<LintResult> = Vec::new();
    assert(result_views(results@) =~= Seq::<LintView>::empty());
    require_string(config, "name", &mut results);
    require_string(config, "connector.class", &mut results);
    validate_tasks_max(config, &mut results);
    let ghost head = result_views(results@);
    match config.get("connector.class") {
        Some(JsonValue::String(c)) => {
            if str_contains(c.as_str(), "PostgresConnector") {
                validate_debezium_postgres(config, &mut results);
            } else if str_contains(c.as_str(), "IcebergSinkConnector") {
                validate_iceberg_sink(config, &mut results);
            } else {
                assert(result_views(results@) =~= head + Seq::<LintView>::empty());
            }
        },
        _ => {
            assert(result_views(results@) =~= head + Seq::<LintView>::empty());
        },
    }
    assert(result_views(results@) =~= schema_findings(config@));
    results
}

} // verus!
