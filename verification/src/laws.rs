//! Properties of the library that span several functions or every input.
use vstd::prelude::*;
use crate::json::{
    entry_keys, entries_get, entries_insert, entries_remove, has_key, index_of_key, insert_position, keys_sorted,
    lemma_get_after_remove_other, lemma_index_of_key_bound, lemma_index_of_key_unique, JsonView,
};
use crate::k8s::{label_selector, matching_lines};
use crate::linter::types::{count_severity, finding, severity_from_name, severity_name, LintView, Severity};
use crate::parse::named;
use crate::text::{ascii_lower, contains, ends_with, lemma_seq_lt_irreflexive, lemma_seq_lt_transitive,
    lemma_seq_lt_trichotomy, seq_lt};
use crate::ui::connectors::{count_running, lemma_name_position_bound, name_position, sort_by_name, Named};
use crate::control::yaml::{config_line, config_lines, sort_strings, string_position, strimzi_yaml, yaml_config_block,
    yaml_header, yaml_rest};
use crate::linter::engine::{connector_name, finding_before, lemma_sorted_position_bound, lint_findings,
    rule_output, sort_findings, sorted_position};
use crate::linter::config::{rule_enabled, LinterConfig};
use crate::linter::rules::{valid_snapshot_mode, builtin_rule_views, check_findings, missing_field, name_char_ok, naming_findings,
    required_field_findings, rule_views, sensitive_entry_findings, sensitive_findings, sensitive_key, sensitive_value,
    snapshot_mode_findings, tasks_max_findings, RuleCheck, RuleView};
use crate::linter::config::effective_severity;
use crate::linter::engine::resolve_severities;
use crate::text::occurs_at;
use vstd::utf8::encode_utf8;
use crate::linter::engine::ConnectorLinter;
use crate::schema::{field_finding, postgres_findings, class_findings, iceberg_fields, postgres_fields, schema_findings, string_field_findings,
    string_fields_findings, tasks_schema_findings};
use crate::validate::validation_findings;
use crate::connect::types::create_parts;
use crate::assoc::{assoc_get, assoc_index, assoc_set, lemma_assoc_index_bound};
use crate::monitor::tracker::{after_notification, member_str, SnapshotStateView};
use crate::settings::overridden;
use crate::ui::control::{encode_byte, is_unreserved, url_encode_bytes};
use crate::control::snapshot::{nonempty_trimmed, signal_document, string_views, table_names};
use crate::ui::dashboard::{count_state, lists_state_counts};
use crate::ui::views::StatusCountView;
use crate::text::trim;

verus! {

broadcast use vstd::string::group_string_axioms;

proof fn lemma_insert_position_bound(es: Seq<(Seq<char>, JsonView)>, key: Seq<char>)
    ensures
        0 <= insert_position(es, key) <= es.len(),
    decreases es.len(),
{
    if es.len() > 0 {
        lemma_insert_position_bound(es.drop_first(), key);
    }
}

/// `index_of_key` finds the first member with the key, and only members
/// before it have other keys.
proof fn lemma_index_of_key_first(es: Seq<(Seq<char>, JsonView)>, key: Seq<char>)
    ensures
        forall|j: int| 0 <= j < index_of_key(es, key) ==> #[trigger] es[j].0 != key,
        index_of_key(es, key) < es.len() ==> es[index_of_key(es, key)].0 == key,
    decreases es.len(),
{
    lemma_index_of_key_bound(es, key);
    if es.len() > 0 && es[0].0 != key {
        lemma_index_of_key_first(es.drop_first(), key);
        assert forall|j: int| 0 <= j < index_of_key(es, key) implies #[trigger] es[j].0 != key by {
            if j > 0 {
                assert(es[j] == es.drop_first()[j - 1]);
            }
        }
    }
}

/// The position of the first member with `key` is the one with that key and
/// no earlier one.
proof fn lemma_index_of_key_is(es: Seq<(Seq<char>, JsonView)>, key: Seq<char>, i: int)
    requires
        0 <= i <= es.len(),
        i < es.len() ==> es[i].0 == key,
        forall|j: int| 0 <= j < i ==> #[trigger] es[j].0 != key,
    ensures
        index_of_key(es, key) == i,
    decreases es.len(),
{
    if es.len() > 0 && i > 0 {
        assert forall|j: int| 0 <= j < i - 1 implies #[trigger] es.drop_first()[j].0 != key by {
            assert(es.drop_first()[j] == es[j + 1]);
        }
        lemma_index_of_key_is(es.drop_first(), key, i - 1);
    }
}

/// A JSON object read back at a key just set gives the value set there.
pub proof fn law_get_after_insert(es: Seq<(Seq<char>, JsonView)>, key: Seq<char>, value: JsonView)
    ensures
        entries_get(entries_insert(es, key, value), key) == Some(value),
{
    lemma_index_of_key_first(es, key);
    lemma_index_of_key_bound(es, key);
    lemma_insert_position_bound(es, key);
    let i = index_of_key(es, key);
    let es2 = entries_insert(es, key, value);
    if i < es.len() {
        lemma_index_of_key_is(es2, key, i);
    } else {
        let p = insert_position(es, key);
        assert forall|j: int| 0 <= j < p implies #[trigger] es2[j].0 != key by {
            assert(es2[j] == es[j]);
        }
        lemma_index_of_key_is(es2, key, p);
    }
}

/// Setting one key of a JSON object leaves what every other key reads.
pub proof fn law_get_after_insert_other(
    es: Seq<(Seq<char>, JsonView)>,
    key: Seq<char>,
    value: JsonView,
    other: Seq<char>,
)
    requires
        other != key,
    ensures
        entries_get(entries_insert(es, key, value), other) == entries_get(es, other),
{
    lemma_index_of_key_first(es, key);
    lemma_index_of_key_first(es, other);
    lemma_index_of_key_bound(es, key);
    lemma_index_of_key_bound(es, other);
    lemma_insert_position_bound(es, key);
    let i = index_of_key(es, key);
    let k = index_of_key(es, other);
    let es2 = entries_insert(es, key, value);
    if i < es.len() {
        assert forall|j: int| 0 <= j < k implies #[trigger] es2[j].0 != other by {
            if j != i {
                assert(es2[j] == es[j]);
            }
        }
        lemma_index_of_key_is(es2, other, k);
    } else {
        let p = insert_position(es, key);
        let k2 = if k < p {
            k
        } else {
            k + 1
        };
        assert forall|j: int| 0 <= j < k2 implies #[trigger] es2[j].0 != other by {
            if j < p {
                assert(es2[j] == es[j]);
            } else if j > p {
                assert(es2[j] == es[j - 1]);
            }
        }
        if k < es.len() {
            if k < p {
                assert(es2[k2] == es[k]);
            } else {
                assert(es2[k2] == es[k]);
            }
        }
        lemma_index_of_key_is(es2, other, k2);
    }
}

/// In an object whose keys are in order (as a `BTreeMap` keeps them), a
/// removed key reads as absent.
pub proof fn law_get_after_remove(es: Seq<(Seq<char>, JsonView)>, key: Seq<char>)
    requires
        keys_sorted(es),
    ensures
        entries_get(entries_remove(es, key), key) is None,
{
    lemma_index_of_key_first(es, key);
    lemma_index_of_key_bound(es, key);
    let i = index_of_key(es, key);
    let es2 = entries_remove(es, key);
    if i < es.len() {
        assert forall|j: int| 0 <= j < es2.len() implies #[trigger] es2[j].0 != key by {
            if j < i {
                assert(es2[j] == es[j]);
            } else {
                assert(es2[j] == es[j + 1]);
                assert(seq_lt(es[i].0, es[j + 1].0));
                lemma_seq_lt_irreflexive(key);
            }
        }
        lemma_index_of_key_is(es2, key, es2.len() as int);
    } else {
        lemma_index_of_key_is(es2, key, es2.len() as int);
    }
}

/// Members before the position a new key goes to do not come after it; the
/// member at that position does.
proof fn lemma_insert_position_order(es: Seq<(Seq<char>, JsonView)>, key: Seq<char>)
    ensures
        forall|j: int| 0 <= j < insert_position(es, key) ==> !seq_lt(key, #[trigger] es[j].0),
        insert_position(es, key) < es.len() ==> seq_lt(key, es[insert_position(es, key)].0),
    decreases es.len(),
{
    lemma_insert_position_bound(es, key);
    if es.len() > 0 && !seq_lt(key, es[0].0) {
        lemma_insert_position_order(es.drop_first(), key);
        assert forall|j: int| 0 <= j < insert_position(es, key) implies !seq_lt(key, #[trigger] es[j].0) by {
            if j > 0 {
                assert(es[j] == es.drop_first()[j - 1]);
            }
        }
        let p = insert_position(es, key);
        lemma_insert_position_bound(es.drop_first(), key);
        assert(p == 1 + insert_position(es.drop_first(), key));
        if p < es.len() {
            assert(es[p] == es.drop_first()[p - 1]);
        }
    }
}

/// Setting a key of an object whose keys are in order keeps them in order.
pub proof fn law_insert_keeps_keys_sorted(es: Seq<(Seq<char>, JsonView)>, key: Seq<char>, value: JsonView)
    requires
        keys_sorted(es),
    ensures
        keys_sorted(entries_insert(es, key, value)),
{
    lemma_index_of_key_first(es, key);
    lemma_index_of_key_bound(es, key);
    lemma_insert_position_bound(es, key);
    lemma_insert_position_order(es, key);
    let i = index_of_key(es, key);
    let es2 = entries_insert(es, key, value);
    if i < es.len() {
        assert forall|a: int, b: int| 0 <= a < b < es2.len() implies seq_lt(#[trigger] es2[a].0, #[trigger] es2[b].0) by {
            assert(es2[a].0 == es[a].0);
            assert(es2[b].0 == es[b].0);
        }
    } else {
        let p = insert_position(es, key);
        assert forall|a: int, b: int| 0 <= a < b < es2.len() implies seq_lt(#[trigger] es2[a].0, #[trigger] es2[b].0) by {
            if b < p {
                assert(es2[a] == es[a] && es2[b] == es[b]);
            } else if b == p {
                assert(es2[a] == es[a]);
                lemma_seq_lt_trichotomy(key, es[a].0);
            } else if a > p {
                assert(es2[a] == es[a - 1] && es2[b] == es[b - 1]);
            } else if a == p {
                assert(es2[b] == es[b - 1]);
                if b - 1 > p {
                    lemma_seq_lt_transitive(key, es[p].0, es[b - 1].0);
                }
            } else {
                assert(es2[a] == es[a] && es2[b] == es[b - 1]);
            }
        }
    }
}

/// Removing a key from an object whose keys are in order keeps them in order.
pub proof fn law_remove_keeps_keys_sorted(es: Seq<(Seq<char>, JsonView)>, key: Seq<char>)
    requires
        keys_sorted(es),
    ensures
        keys_sorted(entries_remove(es, key)),
{
    lemma_index_of_key_bound(es, key);
    let i = index_of_key(es, key);
    let es2 = entries_remove(es, key);
    if i < es.len() {
        assert forall|a: int, b: int| 0 <= a < b < es2.len() implies seq_lt(#[trigger] es2[a].0, #[trigger] es2[b].0) by {
            let a0 = if a < i { a } else { a + 1 };
            let b0 = if b < i { b } else { b + 1 };
            assert(es2[a] == es[a0] && es2[b] == es[b0]);
        }
    }
}

/// A configuration that names its connector keeps that name whatever name
/// is supplied.
pub proof fn law_named_keeps_existing_name(cfg: Seq<(Seq<char>, JsonView)>, name: Option<Seq<char>>)
    requires
        has_key(cfg, "name"@),
    ensures
        named(cfg, name) == cfg,
{
}

/// A configuration without a name gets the one supplied.
pub proof fn law_named_supplies_name(cfg: Seq<(Seq<char>, JsonView)>, name: Seq<char>)
    requires
        !has_key(cfg, "name"@),
    ensures
        entries_get(named(cfg, Some(name)), "name"@) == Some(JsonView::String(name)),
{
    law_get_after_insert(cfg, "name"@, JsonView::String(name));
}

/// Supplying a name twice changes nothing the second time.
pub proof fn law_named_idempotent(cfg: Seq<(Seq<char>, JsonView)>, first: Seq<char>, second: Option<Seq<char>>)
    ensures
        named(named(cfg, Some(first)), second) == named(cfg, Some(first)),
{
    if !has_key(cfg, "name"@) {
        law_named_supplies_name(cfg, first);
    }
}

/// Each severity's name parses back to it.
pub proof fn law_severity_name_round_trip(s: Severity)
    ensures
        severity_from_name(severity_name(s)) == Some(s),
{
    reveal_strlit("error");
    reveal_strlit("warning");
    reveal_strlit("info");
    assert(ascii_lower(severity_name(s)) =~= severity_name(s));
    assert("error"@ != "warning"@ && "error"@ != "info"@ && "warning"@ != "info"@) by {
        assert("error"@.len() != "warning"@.len());
        assert("error"@.len() != "info"@.len());
        assert("warning"@.len() != "info"@.len());
    }
}

/// Every finding is counted under exactly one severity.
pub proof fn law_summary_counts_all(rs: Seq<LintView>)
    ensures
        count_severity(rs, Severity::Error) + count_severity(rs, Severity::Warning) + count_severity(
            rs,
            Severity::Info,
        ) == rs.len(),
    decreases rs.len(),
{
    if rs.len() > 0 {
        law_summary_counts_all(rs.drop_last());
    }
}

/// The label selector always names a `-connect` cluster.
pub proof fn law_label_selector_ends_with_connect(cluster_name: Seq<char>)
    ensures
        ends_with(label_selector(cluster_name), "-connect"@),
{
    let name = if ends_with(cluster_name, "-connect"@) {
        cluster_name
    } else {
        cluster_name + "-connect"@
    };
    let sel = label_selector(cluster_name);
    let n = "-connect"@.len();
    assert(sel == "strimzi.io/name="@ + name);
    if !ends_with(cluster_name, "-connect"@) {
        assert(name.subrange(name.len() - n, name.len() as int) =~= "-connect"@);
    }
    assert(name.len() >= n);
    assert(sel.subrange(sel.len() - n, sel.len() as int) =~= name.subrange(name.len() - n, name.len() as int));
}

/// Adding the `-connect` suffix to a name that lacks it selects the same pods
/// as the name itself.
pub proof fn law_label_selector_suffix(cluster_name: Seq<char>)
    requires
        !ends_with(cluster_name, "-connect"@),
    ensures
        label_selector(cluster_name + "-connect"@) == label_selector(cluster_name),
{
    let full = cluster_name + "-connect"@;
    assert(full.subrange(full.len() - "-connect"@.len(), full.len() as int) =~= "-connect"@);
}

/// Every line kept by the log filter contains the filter text.
pub proof fn law_filtered_lines_contain_filter(ls: Seq<Seq<char>>, filter: Seq<char>)
    ensures
        forall|i: int|
            0 <= i < matching_lines(ls, filter).len() ==> contains(#[trigger] matching_lines(ls, filter)[i], filter),
    decreases ls.len(),
{
    if ls.len() > 0 {
        let prev = matching_lines(ls.drop_last(), filter);
        law_filtered_lines_contain_filter(ls.drop_last(), filter);
        let cur = matching_lines(ls, filter);
        assert forall|i: int| 0 <= i < cur.len() implies contains(#[trigger] cur[i], filter) by {
            if i < prev.len() {
                assert(cur[i] == prev[i]);
            }
        }
    }
}

/// Where `x` goes among rows: after every row it does not come before, and
/// before the first row it does.
proof fn lemma_name_position_props<T: Named>(sorted: Seq<T>, x: T)
    ensures
        forall|k: int|
            0 <= k < name_position(sorted, x) ==> !seq_lt(x.name_view(), #[trigger] sorted[k].name_view()),
        name_position(sorted, x) < sorted.len() ==> seq_lt(
            x.name_view(),
            sorted[name_position(sorted, x)].name_view(),
        ),
    decreases sorted.len(),
{
    lemma_name_position_bound(sorted, x);
    if sorted.len() > 0 && !seq_lt(x.name_view(), sorted[0].name_view()) {
        lemma_name_position_props(sorted.drop_first(), x);
        assert forall|k: int| 0 <= k < name_position(sorted, x) implies !seq_lt(
            x.name_view(),
            #[trigger] sorted[k].name_view(),
        ) by {
            if k > 0 {
                assert(sorted[k] == sorted.drop_first()[k - 1]);
            }
        }
        let p1 = name_position(sorted.drop_first(), x);
        lemma_name_position_bound(sorted.drop_first(), x);
        assert(name_position(sorted, x) == 1 + p1);
        if p1 < sorted.drop_first().len() {
            assert(sorted[1 + p1] == sorted.drop_first()[p1]);
        }
    }
}

/// Rows are in name order: no row's name comes before an earlier row's.
pub open spec fn name_sorted<T: Named>(s: Seq<T>) -> bool {
    forall|i: int, j: int| 0 <= i < j < s.len() ==> !seq_lt(#[trigger] s[j].name_view(), #[trigger] s[i].name_view())
}

/// Listing rows by name (the dashboard's and the control page's connectors)
/// puts them in name order and keeps every row.
pub proof fn law_sort_by_name_sorted<T: Named>(rows: Seq<T>)
    ensures
        name_sorted(sort_by_name(rows)),
        sort_by_name(rows).to_multiset() == rows.to_multiset(),
    decreases rows.len(),
{
    broadcast use vstd::seq_lib::to_multiset_build;
    if rows.len() == 0 {
        assert(sort_by_name(rows) =~= rows);
    } else {
        let prev = sort_by_name(rows.drop_last());
        let x = rows.last();
        law_sort_by_name_sorted(rows.drop_last());
        lemma_name_position_props(prev, x);
        lemma_name_position_bound(prev, x);
        let p = name_position(prev, x);
        let cur = prev.insert(p, x);
        vstd::seq_lib::to_multiset_insert(prev, p, x);
        assert(rows.drop_last().push(x) =~= rows);
        assert forall|i: int, j: int| 0 <= i < j < cur.len() implies !seq_lt(
            #[trigger] cur[j].name_view(),
            #[trigger] cur[i].name_view(),
        ) by {
            if j < p {
                assert(cur[i] == prev[i] && cur[j] == prev[j]);
            } else if j == p {
                assert(cur[i] == prev[i]);
            } else if i < p {
                assert(cur[i] == prev[i] && cur[j] == prev[j - 1]);
            } else if i == p {
                assert(cur[j] == prev[j - 1]);
                lemma_seq_lt_trichotomy(x.name_view(), prev[p].name_view());
                if seq_lt(prev[j - 1].name_view(), x.name_view()) {
                    if j - 1 > p {
                        lemma_seq_lt_transitive(prev[j - 1].name_view(), x.name_view(), prev[p].name_view());
                    }
                }
            } else {
                assert(cur[i] == prev[i - 1] && cur[j] == prev[j - 1]);
            }
        }
    }
}

impl Named for Seq<char> {
    open spec fn name_view(&self) -> Seq<char> {
        *self
    }
}

proof fn lemma_string_position_is_name_position(sorted: Seq<Seq<char>>, x: Seq<char>)
    ensures
        string_position(sorted, x) == name_position(sorted, x),
    decreases sorted.len(),
{
    if sorted.len() > 0 {
        lemma_string_position_is_name_position(sorted.drop_first(), x);
    }
}

proof fn lemma_sort_strings_is_sort_by_name(s: Seq<Seq<char>>)
    ensures
        sort_strings(s) == sort_by_name(s),
    decreases s.len(),
{
    if s.len() > 0 {
        lemma_sort_strings_is_sort_by_name(s.drop_last());
        lemma_string_position_is_name_position(sort_strings(s.drop_last()), s.last());
    }
}

/// The configuration keys of an exported Strimzi YAML come out in ascending
/// order, every key kept.
pub proof fn law_sort_strings_sorted(keys: Seq<Seq<char>>)
    ensures
        forall|i: int, j: int|
            0 <= i < j < sort_strings(keys).len() ==> !seq_lt(
                #[trigger] sort_strings(keys)[j],
                #[trigger] sort_strings(keys)[i],
            ),
        sort_strings(keys).to_multiset() == keys.to_multiset(),
{
    lemma_sort_strings_is_sort_by_name(keys);
    law_sort_by_name_sorted(keys);
    let s = sort_strings(keys);
    assert forall|i: int, j: int| 0 <= i < j < s.len() implies !seq_lt(#[trigger] s[j], #[trigger] s[i]) by {
        assert(s[j].name_view() == s[j] && s[i].name_view() == s[i]);
    }
}

proof fn lemma_finding_before_order(a: LintView, b: LintView, c: LintView)
    ensures
        !(finding_before(a, b) && finding_before(b, a)),
        finding_before(a, b) && finding_before(b, c) ==> finding_before(a, c),
{
    lemma_seq_lt_trichotomy(a.rule_id, b.rule_id);
    if finding_before(a, b) && finding_before(b, c) {
        if seq_lt(a.rule_id, b.rule_id) && seq_lt(b.rule_id, c.rule_id) {
            lemma_seq_lt_transitive(a.rule_id, b.rule_id, c.rule_id);
        }
    }
}

proof fn lemma_sorted_position_props(sorted: Seq<LintView>, x: LintView)
    ensures
        forall|k: int| 0 <= k < sorted_position(sorted, x) ==> !finding_before(x, #[trigger] sorted[k]),
        sorted_position(sorted, x) < sorted.len() ==> finding_before(x, sorted[sorted_position(sorted, x)]),
    decreases sorted.len(),
{
    lemma_sorted_position_bound(sorted, x);
    if sorted.len() > 0 && !finding_before(x, sorted[0]) {
        lemma_sorted_position_props(sorted.drop_first(), x);
        assert forall|k: int| 0 <= k < sorted_position(sorted, x) implies !finding_before(x, #[trigger] sorted[k]) by {
            if k > 0 {
                assert(sorted[k] == sorted.drop_first()[k - 1]);
            }
        }
        let p1 = sorted_position(sorted.drop_first(), x);
        lemma_sorted_position_bound(sorted.drop_first(), x);
        if p1 < sorted.drop_first().len() {
            assert(sorted[1 + p1] == sorted.drop_first()[p1]);
        }
    }
}

/// Formatted findings are listed by severity, then by rule ID; no finding is
/// lost or added.
pub proof fn law_findings_sorted(rs: Seq<LintView>)
    ensures
        forall|i: int, j: int|
            0 <= i < j < sort_findings(rs).len() ==> !finding_before(
                #[trigger] sort_findings(rs)[j],
                #[trigger] sort_findings(rs)[i],
            ),
        sort_findings(rs).to_multiset() == rs.to_multiset(),
    decreases rs.len(),
{
    broadcast use vstd::seq_lib::to_multiset_build;
    if rs.len() == 0 {
        assert(sort_findings(rs) =~= rs);
    } else {
        let prev = sort_findings(rs.drop_last());
        let x = rs.last();
        law_findings_sorted(rs.drop_last());
        lemma_sorted_position_props(prev, x);
        lemma_sorted_position_bound(prev, x);
        let p = sorted_position(prev, x);
        let cur = prev.insert(p, x);
        vstd::seq_lib::to_multiset_insert(prev, p, x);
        assert(rs.drop_last().push(x) =~= rs);
        assert forall|i: int, j: int| 0 <= i < j < cur.len() implies !finding_before(
            #[trigger] cur[j],
            #[trigger] cur[i],
        ) by {
            if j < p {
                assert(cur[i] == prev[i] && cur[j] == prev[j]);
            } else if j == p {
                assert(cur[i] == prev[i]);
            } else if i < p {
                assert(cur[i] == prev[i] && cur[j] == prev[j - 1]);
            } else if i == p {
                assert(cur[j] == prev[j - 1]);
                lemma_finding_before_order(x, prev[p], prev[j - 1]);
                lemma_finding_before_order(prev[j - 1], x, prev[p]);
            } else {
                assert(cur[i] == prev[i - 1] && cur[j] == prev[j - 1]);
            }
        }
    }
}

/// The rule ID a check's findings carry.
pub open spec fn check_rule_id(check: RuleCheck) -> Seq<char> {
    match check {
        RuleCheck::RequiredFields => "required-field"@,
        RuleCheck::NamingConvention => "naming-convention"@,
        RuleCheck::TasksMax => "tasks-max-value"@,
        RuleCheck::SnapshotMode => "debezium-snapshot-mode"@,
        RuleCheck::SensitiveData => "sensitive-data"@,
    }
}

proof fn lemma_sensitive_rule_id(cfg: Seq<(Seq<char>, JsonView)>)
    ensures
        forall|i: int|
            0 <= i < sensitive_findings(cfg).len() ==> (#[trigger] sensitive_findings(cfg)[i]).rule_id
                == "sensitive-data"@,
    decreases cfg.len(),
{
    if cfg.len() > 0 {
        lemma_sensitive_rule_id(cfg.drop_last());
        let prev = sensitive_findings(cfg.drop_last());
        assert forall|i: int| 0 <= i < sensitive_findings(cfg).len() implies (
        #[trigger] sensitive_findings(cfg)[i]).rule_id == "sensitive-data"@ by {
            if i < prev.len() {
                assert(sensitive_findings(cfg)[i] == prev[i]);
            }
        }
    }
}

/// Every finding of a check carries the check's rule ID.
proof fn lemma_check_rule_id(check: RuleCheck, cfg: Seq<(Seq<char>, JsonView)>)
    ensures
        forall|i: int|
            0 <= i < check_findings(check, cfg).len() ==> (#[trigger] check_findings(check, cfg)[i]).rule_id
                == check_rule_id(check),
{
    if check == RuleCheck::SensitiveData {
        lemma_sensitive_rule_id(cfg);
    }
}

/// Each rule is named after the check it runs.
pub open spec fn rules_consistent(rules: Seq<RuleView>) -> bool {
    forall|i: int| 0 <= i < rules.len() ==> (#[trigger] rules[i]).id == check_rule_id(rules[i].check)
}

/// The built-in rules are named after their checks.
pub proof fn law_builtin_rules_consistent()
    ensures
        rules_consistent(builtin_rule_views()),
{
}

/// A rule disabled by a `lint-disable` comment, by the linter configuration
/// or for this connector reports nothing: every finding comes from a rule
/// that is enabled.
pub proof fn law_disabled_rules_report_nothing(
    lcfg: LinterConfig,
    rules: Seq<RuleView>,
    cfg: Seq<(Seq<char>, JsonView)>,
    disabled: Set<Seq<char>>,
)
    requires
        rules_consistent(rules),
    ensures
        forall|i: int|
            0 <= i < lint_findings(lcfg, rules, cfg, disabled).len() ==> !disabled.contains(
                (#[trigger] lint_findings(lcfg, rules, cfg, disabled)[i]).rule_id,
            ) && rule_enabled(lcfg, lint_findings(lcfg, rules, cfg, disabled)[i].rule_id, connector_name(cfg)),
    decreases rules.len(),
{
    if rules.len() > 0 {
        let head = rules.drop_last();
        assert(rules_consistent(head)) by {
            assert forall|i: int| 0 <= i < head.len() implies (#[trigger] head[i]).id == check_rule_id(
                head[i].check,
            ) by {
                assert(head[i] == rules[i]);
            }
        }
        law_disabled_rules_report_nothing(lcfg, head, cfg, disabled);
        let rule = rules.last();
        assert(rule == rules[rules.len() - 1]);
        lemma_check_rule_id(rule.check, cfg);
        let prev = lint_findings(lcfg, head, cfg, disabled);
        let out = rule_output(lcfg, rule, cfg, disabled);
        let all = lint_findings(lcfg, rules, cfg, disabled);
        assert(all == prev + out);
        assert forall|i: int| 0 <= i < all.len() implies !disabled.contains((#[trigger] all[i]).rule_id)
            && rule_enabled(lcfg, all[i].rule_id, connector_name(cfg)) by {
            if i < prev.len() {
                assert(all[i] == prev[i]);
            } else {
                let k = i - prev.len();
                assert(all[i] == out[k]);
                let found = check_findings(rule.check, cfg);
                assert(out[k].rule_id == found[k].rule_id);
            }
        }
    }
}

proof fn lemma_assoc_index_is<V>(es: Seq<(Seq<char>, V)>, key: Seq<char>, i: int)
    requires
        0 <= i <= es.len(),
        i < es.len() ==> es[i].0 == key,
        forall|j: int| 0 <= j < i ==> #[trigger] es[j].0 != key,
    ensures
        assoc_index(es, key) == i,
    decreases es.len(),
{
    if es.len() > 0 && i > 0 {
        assert forall|j: int| 0 <= j < i - 1 implies #[trigger] es.drop_first()[j].0 != key by {
            assert(es.drop_first()[j] == es[j + 1]);
        }
        lemma_assoc_index_is(es.drop_first(), key, i - 1);
    }
}

proof fn lemma_assoc_set_get<V>(es: Seq<(Seq<char>, V)>, key: Seq<char>, v: V, other: Seq<char>)
    ensures
        assoc_get(assoc_set(es, key, v), key) == Some(v),
        other != key ==> assoc_get(assoc_set(es, key, v), other) == assoc_get(es, other),
{
    lemma_assoc_index_bound(es, key);
    lemma_assoc_index_bound(es, other);
    let i = assoc_index(es, key);
    let k = assoc_index(es, other);
    let es2 = assoc_set(es, key, v);
    if i < es.len() {
        lemma_assoc_index_is(es2, key, i);
        if other != key {
            assert forall|j: int| 0 <= j < k implies #[trigger] es2[j].0 != other by {
                if j != i {
                    assert(es2[j] == es[j]);
                }
            }
            lemma_assoc_index_is(es2, other, k);
        }
    } else {
        assert forall|j: int| 0 <= j < i implies #[trigger] es2[j].0 != key by {
            assert(es2[j] == es[j]);
        }
        lemma_assoc_index_is(es2, key, i);
        if other != key {
            let k2 = if k < es.len() {
                k
            } else {
                k + 1
            };
            assert forall|j: int| 0 <= j < k2 implies #[trigger] es2[j].0 != other by {
                if j < es.len() {
                    assert(es2[j] == es[j]);
                }
            }
            if k < es.len() {
                assert(es2[k] == es[k]);
            }
            lemma_assoc_index_is(es2, other, k2);
        }
    }
}

/// A notification that does not name its type and connector leaves the
/// tracker as it was.
pub proof fn law_tracker_ignores_anonymous(t: Seq<(Seq<char>, SnapshotStateView)>, n: JsonView)
    requires
        member_str(n, "type"@) is None || member_str(n, "aggregateType"@) is None,
    ensures
        after_notification(t, n) == t,
{
}

/// A notification changes nothing of the other connectors' snapshots.
pub proof fn law_tracker_other_connectors_unchanged(
    t: Seq<(Seq<char>, SnapshotStateView)>,
    n: JsonView,
    other: Seq<char>,
)
    requires
        member_str(n, "aggregateType"@) != Some(other),
    ensures
        assoc_get(after_notification(t, n), other) == assoc_get(t, other),
{
    match (member_str(n, "type"@), member_str(n, "aggregateType"@)) {
        (Some(ty), Some(c)) => {
            let st = assoc_get(t, c);
            lemma_assoc_set_get(t, c, SnapshotStateView {
                status: "STARTED"@,
                progress: 0,
                start_time: n.member("timestamp"@),
                end_time: None,
                notification: n,
            }, other);
            if st is Some {
                let s0 = st->0;
                lemma_assoc_set_get(t, c, SnapshotStateView {
                    status: "IN_PROGRESS"@,
                    progress: crate::monitor::tracker::reported_progress(n),
                    notification: n,
                    ..s0
                }, other);
                lemma_assoc_set_get(t, c, SnapshotStateView {
                    status: "COMPLETED"@,
                    progress: 100,
                    end_time: n.member("timestamp"@),
                    notification: n,
                    ..s0
                }, other);
                lemma_assoc_set_get(t, c, SnapshotStateView {
                    status: "ABORTED"@,
                    end_time: n.member("timestamp"@),
                    notification: n,
                    ..s0
                }, other);
            }
        },
        _ => {},
    }
}

/// A `STARTED` notification starts (or restarts) its connector's snapshot at
/// progress 0.
pub proof fn law_tracker_started(t: Seq<(Seq<char>, SnapshotStateView)>, n: JsonView, c: Seq<char>)
    requires
        member_str(n, "type"@) == Some("STARTED"@),
        member_str(n, "aggregateType"@) == Some(c),
    ensures
        assoc_get(after_notification(t, n), c) matches Some(st) && st.status == "STARTED"@ && st.progress == 0
            && st.end_time is None,
{
    lemma_assoc_set_get(t, c, SnapshotStateView {
        status: "STARTED"@,
        progress: 0,
        start_time: n.member("timestamp"@),
        end_time: None,
        notification: n,
    }, c);
}

/// Progress and completion are recorded only for snapshots seen starting.
pub proof fn law_tracker_needs_start(t: Seq<(Seq<char>, SnapshotStateView)>, n: JsonView, c: Seq<char>)
    requires
        member_str(n, "type"@) != Some("STARTED"@),
        member_str(n, "aggregateType"@) == Some(c),
        assoc_get(t, c) is None,
    ensures
        after_notification(t, n) == t,
{
}

/// Command-line options win over the secrets file; options not given keep
/// the file's values.
pub proof fn law_cli_overrides_file(file: Option<Seq<char>>, cli: Option<Seq<char>>)
    ensures
        cli is Some ==> overridden(file, cli) == cli,
        cli is None ==> overridden(file, cli) == file,
{
}

/// Form encoding writes only unreserved characters, `+`, `%` and upper-case
/// hexadecimal digits.
pub proof fn law_url_encoding_is_safe(bs: Seq<u8>)
    ensures
        forall|i: int|
            0 <= i < url_encode_bytes(bs).len() ==> {
                let c = #[trigger] url_encode_bytes(bs)[i];
                ||| ('A' <= c <= 'Z')
                ||| ('a' <= c <= 'z')
                ||| ('0' <= c <= '9')
                ||| c == '-' || c == '_' || c == '.' || c == '~' || c == '+' || c == '%'
            },
    decreases bs.len(),
{
    if bs.len() > 0 {
        law_url_encoding_is_safe(bs.drop_last());
        let prev = url_encode_bytes(bs.drop_last());
        let b = bs.last();
        let tail = encode_byte(b);
        let all = url_encode_bytes(bs);
        assert(all == prev + tail);
        assert forall|i: int| 0 <= i < all.len() implies {
            let c = #[trigger] all[i];
            ||| ('A' <= c <= 'Z')
            ||| ('a' <= c <= 'z')
            ||| ('0' <= c <= '9')
            ||| c == '-' || c == '_' || c == '.' || c == '~' || c == '+' || c == '%'
        } by {
            if i < prev.len() {
                assert(all[i] == prev[i]);
            } else {
                assert(all[i] == tail[i - prev.len()]);
                if is_unreserved(b) {
                    assert(b as char == all[i]);
                }
            }
        }
    }
}

/// Table names taken from a list are never empty, and each is a piece of
/// the list between commas with its surrounding white space removed.
pub proof fn law_table_names_trimmed(raw: Seq<char>)
    ensures
        forall|i: int|
            0 <= i < table_names(raw).len() ==> (#[trigger] table_names(raw)[i]).len() > 0 && exists|k: int|
                0 <= k < crate::text::split_char(raw, ',').len() && table_names(raw)[i] == trim(
                    crate::text::split_char(raw, ',')[k],
                ),
{
    lemma_nonempty_trimmed(crate::text::split_char(raw, ','));
}

proof fn lemma_nonempty_trimmed(parts: Seq<Seq<char>>)
    ensures
        forall|i: int|
            0 <= i < nonempty_trimmed(parts).len() ==> (#[trigger] nonempty_trimmed(parts)[i]).len() > 0
                && exists|k: int| 0 <= k < parts.len() && nonempty_trimmed(parts)[i] == trim(parts[k]),
    decreases parts.len(),
{
    if parts.len() > 0 {
        lemma_nonempty_trimmed(parts.drop_last());
        let prev = nonempty_trimmed(parts.drop_last());
        let cur = nonempty_trimmed(parts);
        assert forall|i: int| 0 <= i < cur.len() implies (#[trigger] cur[i]).len() > 0 && exists|k: int|
            0 <= k < parts.len() && cur[i] == trim(parts[k]) by {
            if i < prev.len() {
                assert(cur[i] == prev[i]);
                let k = choose|k: int| 0 <= k < parts.drop_last().len() && prev[i] == trim(parts.drop_last()[k]);
                assert(parts[k] == parts.drop_last()[k]);
            } else {
                assert(cur[i] == trim(parts[parts.len() - 1]));
            }
        }
    }
}

/// No more connectors are running or failed than there are connectors.
pub proof fn law_dashboard_state_counts_bounded(es: Seq<(Seq<char>, JsonView)>)
    ensures
        count_state(es, "RUNNING"@) + count_state(es, "FAILED"@) <= es.len(),
    decreases es.len(),
{
    reveal_strlit("RUNNING");
    reveal_strlit("FAILED");
    assert("RUNNING"@.len() != "FAILED"@.len());
    if es.len() > 0 {
        law_dashboard_state_counts_bounded(es.drop_last());
    }
}

/// A flat creation payload (one without a `config` object) gives its
/// members without `name` as the configuration, when its keys are in order.
pub proof fn law_flat_payload_drops_name(payload: Seq<(Seq<char>, JsonView)>)
    requires
        keys_sorted(payload),
        entries_get(payload, "name"@) matches Some(JsonView::String(_)),
        !(entries_get(payload, "config"@) matches Some(JsonView::Object(_))),
    ensures
        create_parts(payload) matches Some((_, config)) && entries_get(config, "name"@) is None,
{
    law_get_after_remove(payload, "name"@);
}

/// A validation report is valid exactly when none of its findings is an
/// error.
pub proof fn law_valid_iff_no_error_finding(rs: Seq<LintView>)
    ensures
        (count_severity(rs, Severity::Error) == 0) <==> forall|i: int|
            0 <= i < rs.len() ==> (#[trigger] rs[i]).severity != Severity::Error,
    decreases rs.len(),
{
    if rs.len() > 0 {
        let prev = rs.drop_last();
        law_valid_iff_no_error_finding(prev);
        if count_severity(rs, Severity::Error) == 0 {
            assert forall|i: int| 0 <= i < rs.len() implies (#[trigger] rs[i]).severity != Severity::Error by {
                if i < prev.len() {
                    assert(rs[i] == prev[i]);
                }
            }
        } else {
            if rs.last().severity != Severity::Error {
                let k = choose|k: int| 0 <= k < prev.len() && (#[trigger] prev[k]).severity == Severity::Error;
                assert(rs[k] == prev[k]);
            }
        }
    }
}

/// The total of the counts of a distribution.
pub open spec fn sum_counts(d: Seq<StatusCountView>) -> nat
    decreases d.len(),
{
    if d.len() == 0 {
        0
    } else {
        sum_counts(d.drop_last()) + d.last().count
    }
}

proof fn lemma_sum_counts_update(d: Seq<StatusCountView>, i: int, x: StatusCountView)
    requires
        0 <= i < d.len(),
    ensures
        sum_counts(d.update(i, x)) + d[i].count == sum_counts(d) + x.count,
    decreases d.len(),
{
    if i < d.len() - 1 {
        assert(d.update(i, x).drop_last() =~= d.drop_last().update(i, x));
        lemma_sum_counts_update(d.drop_last(), i, x);
    } else {
        assert(d.update(i, x).drop_last() =~= d.drop_last());
    }
}

proof fn lemma_sum_counts_remove(d: Seq<StatusCountView>, i: int)
    requires
        0 <= i < d.len(),
    ensures
        sum_counts(d.remove(i)) + d[i].count == sum_counts(d),
    decreases d.len(),
{
    if i < d.len() - 1 {
        assert(d.remove(i).drop_last() =~= d.drop_last().remove(i));
        assert(d.remove(i).last() == d.last());
        lemma_sum_counts_remove(d.drop_last(), i);
    } else {
        assert(d.remove(i) =~= d.drop_last());
    }
}

/// The dashboard's status distribution accounts for every connector exactly
/// once: its counts add up to the number of connectors.
pub proof fn law_distribution_counts_every_connector(d: Seq<StatusCountView>, es: Seq<(Seq<char>, JsonView)>)
    requires
        lists_state_counts(d, es),
    ensures
        sum_counts(d) == es.len(),
    decreases es.len(),
{
    if es.len() == 0 {
        if d.len() > 0 {
            assert(d[0].count == count_state(es, d[0].state));
        }
    } else {
        let prev = es.drop_last();
        let s = crate::ui::connectors::connector_state(es.last().1);
        assert forall|t: Seq<char>| #[trigger] count_state(es, t) == count_state(prev, t) + if t == s {
            1nat
        } else {
            0nat
        } by {}
        assert(count_state(es, s) > 0);
        let i = choose|i: int| 0 <= i < d.len() && d[i].state == s;
        assert forall|j: int| 0 <= j < d.len() && j != i implies #[trigger] d[j].state != s by {
            if j < i {
                assert(seq_lt(d[j].state, d[i].state));
            } else {
                assert(seq_lt(d[i].state, d[j].state));
            }
            lemma_seq_lt_irreflexive(s);
        }
        let c = d[i].count;
        if c == 1 {
            let d2 = d.remove(i);
            assert forall|a: int, b: int| 0 <= a < b < d2.len() implies seq_lt(
                #[trigger] d2[a].state,
                #[trigger] d2[b].state,
            ) by {
                let a0 = if a < i { a } else { a + 1 };
                let b0 = if b < i { b } else { b + 1 };
                assert(d2[a] == d[a0] && d2[b] == d[b0]);
            }
            assert forall|j: int| 0 <= j < d2.len() implies #[trigger] d2[j].count == count_state(
                prev,
                d2[j].state,
            ) && d2[j].count > 0 by {
                let j0 = if j < i { j } else { j + 1 };
                assert(d2[j] == d[j0]);
            }
            assert forall|t: Seq<char>| #[trigger] count_state(prev, t) > 0 implies exists|j: int|
                0 <= j < d2.len() && d2[j].state == t by {
                assert(count_state(es, t) > 0);
                let j0 = choose|j: int| 0 <= j < d.len() && d[j].state == t;
                if j0 == i {
                    assert(count_state(prev, s) == 0);
                }
                let j = if j0 < i { j0 } else { j0 - 1 };
                assert(d2[j] == d[j0]);
            }
            law_distribution_counts_every_connector(d2, prev);
            lemma_sum_counts_remove(d, i);
        } else {
            let x = StatusCountView { state: s, count: (c - 1) as nat };
            let d2 = d.update(i, x);
            assert forall|a: int, b: int| 0 <= a < b < d2.len() implies seq_lt(
                #[trigger] d2[a].state,
                #[trigger] d2[b].state,
            ) by {
                assert(d2[a].state == d[a].state && d2[b].state == d[b].state);
            }
            assert forall|j: int| 0 <= j < d2.len() implies #[trigger] d2[j].count == count_state(
                prev,
                d2[j].state,
            ) && d2[j].count > 0 by {
                if j != i {
                    assert(d2[j] == d[j]);
                }
            }
            assert forall|t: Seq<char>| #[trigger] count_state(prev, t) > 0 implies exists|j: int|
                0 <= j < d2.len() && d2[j].state == t by {
                assert(count_state(es, t) > 0);
                let j0 = choose|j: int| 0 <= j < d.len() && d[j].state == t;
                assert(d2[j0].state == t);
            }
            law_distribution_counts_every_connector(d2, prev);
            lemma_sum_counts_update(d, i, x);
        }
    }
}

/// The schema's findings read a configuration only at these keys, so two
/// configurations that read alike there get the same findings past the
/// `name` check.
proof fn lemma_schema_tail_same(a: Seq<(Seq<char>, JsonView)>, b: Seq<(Seq<char>, JsonView)>)
    requires
        entries_get(a, "connector.class"@) == entries_get(b, "connector.class"@),
        entries_get(a, "tasks.max"@) == entries_get(b, "tasks.max"@),
        entries_get(a, "database.hostname"@) == entries_get(b, "database.hostname"@),
        entries_get(a, "database.user"@) == entries_get(b, "database.user"@),
        entries_get(a, "database.password"@) == entries_get(b, "database.password"@),
        entries_get(a, "database.dbname"@) == entries_get(b, "database.dbname"@),
        entries_get(a, "topic.prefix"@) == entries_get(b, "topic.prefix"@),
        entries_get(a, "snapshot.mode"@) == entries_get(b, "snapshot.mode"@),
        entries_get(a, "topics"@) == entries_get(b, "topics"@),
        entries_get(a, "iceberg.catalog.warehouse"@) == entries_get(b, "iceberg.catalog.warehouse"@),
    ensures
        string_field_findings(a, "connector.class"@) + tasks_schema_findings(a) + class_findings(a)
            == string_field_findings(b, "connector.class"@) + tasks_schema_findings(b) + class_findings(b),
{
    reveal_with_fuel(string_fields_findings, 6);
    let pf = postgres_fields();
    assert(pf.drop_last() =~= seq!["database.hostname"@, "database.user"@, "database.password"@, "database.dbname"@]);
    assert(string_fields_findings(a, pf) == string_fields_findings(b, pf)) by {
        let p4 = pf.drop_last();
        let p3 = p4.drop_last();
        let p2 = p3.drop_last();
        let p1 = p2.drop_last();
        assert(p3 =~= seq!["database.hostname"@, "database.user"@, "database.password"@]);
        assert(p2 =~= seq!["database.hostname"@, "database.user"@]);
        assert(p1 =~= seq!["database.hostname"@]);
        assert(p1.drop_last() =~= Seq::<Seq<char>>::empty());
    }
    let ic = iceberg_fields();
    assert(ic.drop_last() =~= seq!["topics"@]);
    assert(ic.drop_last().drop_last() =~= Seq::<Seq<char>>::empty());
}

/// A configuration without `name` fails validation under every linter: the
/// schema requires the field. Once a name is supplied, neither the
/// `required-field` rule nor the schema finds `name` missing, and every
/// other finding of those two checks stays as it was.
pub proof fn law_supplied_name_satisfies_checks(
    linter: ConnectorLinter,
    cfg: Seq<(Seq<char>, JsonView)>,
    name: Seq<char>,
    disabled: Set<Seq<char>>,
)
    requires
        !has_key(cfg, "name"@),
    ensures
        named(cfg, None) == cfg,
        count_severity(validation_findings(linter, cfg, disabled), Severity::Error) > 0,
        required_field_findings(named(cfg, Some(name))) == required_field_findings(cfg).drop_first(),
        schema_findings(named(cfg, Some(name))) == schema_findings(cfg).drop_first(),
{
    reveal_strlit("name");
    reveal_strlit("connector.class");
    reveal_strlit("tasks.max");
    reveal_strlit("database.hostname");
    reveal_strlit("database.user");
    reveal_strlit("database.password");
    reveal_strlit("database.dbname");
    reveal_strlit("topic.prefix");
    reveal_strlit("snapshot.mode");
    reveal_strlit("topics");
    reveal_strlit("iceberg.catalog.warehouse");
    let all = validation_findings(linter, cfg, disabled);
    let lint = lint_findings(linter.config, rule_views(linter.rules@), cfg, disabled);
    assert(schema_findings(cfg)[0].severity == Severity::Error);
    assert(all[lint.len() as int] == schema_findings(cfg)[0]);
    law_valid_iff_no_error_finding(all);
    let v = JsonView::String(name);
    let cfg2 = named(cfg, Some(name));
    law_named_supplies_name(cfg, name);
    law_get_after_insert_other(cfg, "name"@, v, "connector.class"@);
    law_get_after_insert_other(cfg, "name"@, v, "tasks.max"@);
    law_get_after_insert_other(cfg, "name"@, v, "database.hostname"@);
    law_get_after_insert_other(cfg, "name"@, v, "database.user"@);
    law_get_after_insert_other(cfg, "name"@, v, "database.password"@);
    law_get_after_insert_other(cfg, "name"@, v, "database.dbname"@);
    law_get_after_insert_other(cfg, "name"@, v, "topic.prefix"@);
    law_get_after_insert_other(cfg, "name"@, v, "snapshot.mode"@);
    law_get_after_insert_other(cfg, "name"@, v, "topics"@);
    law_get_after_insert_other(cfg, "name"@, v, "iceberg.catalog.warehouse"@);
    lemma_schema_tail_same(cfg2, cfg);
    assert(string_field_findings(cfg2, "name"@) =~= Seq::<LintView>::empty());
    assert(schema_findings(cfg2) =~= schema_findings(cfg).drop_first());
    assert(has_key(cfg2, "name"@));
    assert(has_key(cfg2, "connector.class"@) == has_key(cfg, "connector.class"@));
    assert(required_field_findings(cfg2) =~= required_field_findings(cfg).drop_first());
}

/// A connector name the `naming-convention` rule accepts: ASCII letters,
/// digits, `-` and `_` only, and at most 64 bytes.
pub open spec fn follows_naming_convention(name: Seq<char>) -> bool {
    &&& forall|i: int| 0 <= i < name.len() ==> name_char_ok(#[trigger] name[i])
    &&& encode_utf8(name).len() <= 64
}

/// Every error among the findings is about the `name` field.
pub open spec fn errors_only_at_name(rs: Seq<LintView>) -> bool {
    forall|i: int| 0 <= i < rs.len() && (#[trigger] rs[i]).severity == Severity::Error ==> rs[i].path == Some("name"@)
}

/// Findings of fields none of which is `k` are not at `k`.
proof fn lemma_string_fields_avoid(cfg: Seq<(Seq<char>, JsonView)>, keys: Seq<Seq<char>>, k: Seq<char>)
    requires
        forall|j: int| 0 <= j < keys.len() ==> #[trigger] keys[j] != k,
    ensures
        forall|i: int|
            0 <= i < string_fields_findings(cfg, keys).len() ==> (#[trigger] string_fields_findings(cfg, keys)[i]).path
                != Some(k),
    decreases keys.len(),
{
    if keys.len() > 0 {
        let p = keys.drop_last();
        assert forall|j: int| 0 <= j < p.len() implies #[trigger] p[j] != k by {
            assert(p[j] == keys[j]);
        }
        lemma_string_fields_avoid(cfg, p, k);
        let a = string_fields_findings(cfg, p);
        let b = string_field_findings(cfg, keys.last());
        assert(keys.last() == keys[keys.len() - 1]);
        assert forall|i: int| 0 <= i < string_fields_findings(cfg, keys).len() implies (
        #[trigger] string_fields_findings(cfg, keys)[i]).path != Some(k) by {
            if i < a.len() {
                assert(string_fields_findings(cfg, keys)[i] == a[i]);
            } else {
                assert(string_fields_findings(cfg, keys)[i] == b[i - a.len()]);
            }
        }
    }
}

/// Past its `name` check, the schema finds nothing at `name`.
proof fn lemma_schema_tail_avoids_name(cfg: Seq<(Seq<char>, JsonView)>)
    ensures
        forall|i: int| 1 <= i < schema_findings(cfg).len() ==> (#[trigger] schema_findings(cfg)[i]).path != Some("name"@),
{
    reveal_strlit("name");
    reveal_strlit("connector.class");
    reveal_strlit("tasks.max");
    reveal_strlit("snapshot.mode");
    reveal_strlit("database.hostname");
    reveal_strlit("database.user");
    reveal_strlit("database.password");
    reveal_strlit("database.dbname");
    reveal_strlit("topic.prefix");
    reveal_strlit("topics");
    reveal_strlit("iceberg.catalog.warehouse");
    let pf = postgres_fields();
    let ic = iceberg_fields();
    assert forall|j: int| 0 <= j < pf.len() implies #[trigger] pf[j] != "name"@ by {
        assert(pf[j].len() != 4);
    }
    assert forall|j: int| 0 <= j < ic.len() implies #[trigger] ic[j] != "name"@ by {
        assert(ic[j].len() != 4);
    }
    lemma_string_fields_avoid(cfg, pf, "name"@);
    lemma_string_fields_avoid(cfg, ic, "name"@);
    let a = string_field_findings(cfg, "name"@);
    let b = string_field_findings(cfg, "connector.class"@);
    let c = tasks_schema_findings(cfg);
    let d = class_findings(cfg);
    let all = schema_findings(cfg);
    assert(all == a + b + c + d);
    assert forall|i: int| 1 <= i < all.len() implies (#[trigger] all[i]).path != Some("name"@) by {
        if i < a.len() + b.len() {
            assert(all[i] == b[i - a.len()]);
        } else if i < a.len() + b.len() + c.len() {
            assert(all[i] == c[i - a.len() - b.len()]);
        } else {
            let m = i - a.len() - b.len() - c.len();
            assert(all[i] == d[m]);
            match entries_get(cfg, "connector.class"@) {
                Some(JsonView::String(cls)) => {
                    if contains(cls, "PostgresConnector"@) {
                        let sp = string_fields_findings(cfg, pf);
                        if m < sp.len() {
                            assert(d[m] == sp[m]);
                        }
                    } else if contains(cls, "IcebergSinkConnector"@) {
                        assert(d[m] == string_fields_findings(cfg, ic)[m]);
                    }
                },
                _ => {},
            }
        }
    }
}

/// Every finding of `sensitive-data` is a warning.
proof fn lemma_sensitive_warnings(s: Seq<(Seq<char>, JsonView)>)
    ensures
        forall|i: int|
            0 <= i < sensitive_findings(s).len() ==> (#[trigger] sensitive_findings(s)[i]).severity == Severity::Warning,
    decreases s.len(),
{
    if s.len() > 0 {
        let p = s.drop_last();
        lemma_sensitive_warnings(p);
        let a = sensitive_findings(p);
        assert forall|i: int| 0 <= i < sensitive_findings(s).len() implies (#[trigger] sensitive_findings(s)[i]).severity
            == Severity::Warning by {
            if i < a.len() {
                assert(sensitive_findings(s)[i] == a[i]);
            }
        }
    }
}

/// `sensitive-data` reports at member names only, so never at a name that
/// no member has.
proof fn lemma_sensitive_avoids(s: Seq<(Seq<char>, JsonView)>, k: Seq<char>)
    requires
        forall|j: int| 0 <= j < s.len() ==> (#[trigger] s[j]).0 != k,
    ensures
        forall|i: int| 0 <= i < sensitive_findings(s).len() ==> (#[trigger] sensitive_findings(s)[i]).path != Some(k),
    decreases s.len(),
{
    if s.len() > 0 {
        let p = s.drop_last();
        assert forall|j: int| 0 <= j < p.len() implies (#[trigger] p[j]).0 != k by {
            assert(p[j] == s[j]);
        }
        lemma_sensitive_avoids(p, k);
        let a = sensitive_findings(p);
        assert(s.last() == s[s.len() - 1]);
        assert forall|i: int| 0 <= i < sensitive_findings(s).len() implies (#[trigger] sensitive_findings(s)[i]).path
            != Some(k) by {
            if i < a.len() {
                assert(sensitive_findings(s)[i] == a[i]);
            }
        }
    }
}

/// `sensitive-data` reports nothing exactly when no member holds a secret.
proof fn lemma_sensitive_none(s: Seq<(Seq<char>, JsonView)>)
    ensures
        (sensitive_findings(s).len() == 0) <==> forall|j: int|
            0 <= j < s.len() ==> !(sensitive_key((#[trigger] s[j]).0) && sensitive_value(s[j].1)),
    decreases s.len(),
{
    if s.len() > 0 {
        let p = s.drop_last();
        lemma_sensitive_none(p);
        assert(s.last() == s[s.len() - 1]);
        if sensitive_findings(s).len() == 0 {
            assert forall|j: int| 0 <= j < s.len() implies !(sensitive_key((#[trigger] s[j]).0) && sensitive_value(
                s[j].1,
            )) by {
                if j < p.len() {
                    assert(s[j] == p[j]);
                }
            }
        } else if forall|j: int| 0 <= j < s.len() ==> !(sensitive_key((#[trigger] s[j]).0) && sensitive_value(s[j].1)) {
            assert forall|j: int| 0 <= j < p.len() implies !(sensitive_key((#[trigger] p[j]).0) && sensitive_value(
                p[j].1,
            )) by {
                assert(s[j] == p[j]);
            }
        }
    }
}

/// The member name `name` names no secret.
proof fn lemma_name_not_sensitive()
    ensures
        !sensitive_key("name"@),
{
    reveal_strlit("name");
    reveal_strlit("password");
    reveal_strlit("secret");
    reveal_strlit("key");
    reveal_strlit("token");
    let l = ascii_lower("name"@);
    assert(l.len() == 4);
    assert(l[0] == 'n' && l[1] == 'a');
    if contains(l, "key"@) {
        let i = choose|i: int| occurs_at(l, "key"@, i);
        assert(l.subrange(i, i + 3)[0] == l[i]);
        assert("key"@[0] == 'k');
    }
}

/// One rule, run on a configuration without `name` whose only errors from
/// that rule are at `name`, reports no error once a conforming name is
/// supplied.
proof fn lemma_rule_errors_cleared(
    lcfg: LinterConfig,
    rule: RuleView,
    cfg: Seq<(Seq<char>, JsonView)>,
    name: Seq<char>,
    disabled: Set<Seq<char>>,
)
    requires
        !has_key(cfg, "name"@),
        follows_naming_convention(name),
        errors_only_at_name(rule_output(lcfg, rule, cfg, disabled)),
    ensures
        forall|i: int|
            0 <= i < rule_output(lcfg, rule, named(cfg, Some(name)), disabled).len() ==> (#[trigger] rule_output(
                lcfg,
                rule,
                named(cfg, Some(name)),
                disabled,
            )[i]).severity != Severity::Error,
{
    reveal_strlit("name");
    reveal_strlit("connector.class");
    reveal_strlit("tasks.max");
    reveal_strlit("snapshot.mode");
    let cfg2 = named(cfg, Some(name));
    let v = JsonView::String(name);
    let out1 = rule_output(lcfg, rule, cfg, disabled);
    let out2 = rule_output(lcfg, rule, cfg2, disabled);
    law_named_supplies_name(cfg, name);
    lemma_index_of_key_bound(cfg, "name"@);
    lemma_index_of_key_first(cfg, "name"@);
    if out2.len() > 0 {
        assert(connector_name(cfg) is None);
        assert(!disabled.contains(rule.id) && rule_enabled(lcfg, rule.id, connector_name(cfg2)));
        assert(rule_enabled(lcfg, rule.id, connector_name(cfg)));
        let c1 = check_findings(rule.check, cfg);
        let c2 = check_findings(rule.check, cfg2);
        assert(out1 == resolve_severities(c1, lcfg, rule.id));
        assert(out2 == resolve_severities(c2, lcfg, rule.id));
        match rule.check {
            RuleCheck::RequiredFields => {
                law_get_after_insert_other(cfg, "name"@, v, "connector.class"@);
                assert(missing_field(cfg, "name"@).len() == 1);
                assert(c1 == missing_field(cfg, "name"@) + missing_field(cfg, "connector.class"@));
                assert(c2 =~= c1.drop_first());
                assert forall|i: int| 0 <= i < out2.len() implies (#[trigger] out2[i]).severity != Severity::Error by {
                    assert(out2[i].severity == out1[i + 1].severity);
                    assert(c1[i + 1] == missing_field(cfg, "connector.class"@)[i]);
                    assert(out1[i + 1].path == Some("connector.class"@));
                }
            },
            RuleCheck::NamingConvention => {
                assert(naming_findings(cfg2) =~= Seq::<LintView>::empty());
            },
            RuleCheck::TasksMax => {
                law_get_after_insert_other(cfg, "name"@, v, "tasks.max"@);
                assert(c2 == c1);
                assert forall|i: int| 0 <= i < out2.len() implies (#[trigger] out2[i]).severity != Severity::Error by {
                    assert(out2[i] == out1[i]);
                    assert(out1[i].path == Some("tasks.max"@));
                }
            },
            RuleCheck::SnapshotMode => {
                law_get_after_insert_other(cfg, "name"@, v, "connector.class"@);
                law_get_after_insert_other(cfg, "name"@, v, "snapshot.mode"@);
                assert(c2 == c1);
                assert forall|i: int| 0 <= i < out2.len() implies (#[trigger] out2[i]).severity != Severity::Error by {
                    assert(out2[i] == out1[i]);
                    assert(out1[i].path == Some("snapshot.mode"@));
                }
            },
            RuleCheck::SensitiveData => {
                let e = effective_severity(lcfg, rule.id, Severity::Warning);
                lemma_sensitive_warnings(cfg);
                lemma_sensitive_warnings(cfg2);
                if e == Severity::Error {
                    lemma_sensitive_avoids(cfg, "name"@);
                    if c1.len() > 0 {
                        assert(out1[0].severity == Severity::Error);
                        assert(out1[0].path == c1[0].path);
                    }
                    lemma_sensitive_none(cfg);
                    lemma_name_not_sensitive();
                    let p = insert_position(cfg, "name"@);
                    lemma_insert_position_bound(cfg, "name"@);
                    assert(cfg2 == cfg.insert(p, ("name"@, v)));
                    assert forall|j: int| 0 <= j < cfg2.len() implies !(sensitive_key((#[trigger] cfg2[j]).0)
                        && sensitive_value(cfg2[j].1)) by {
                        if j < p {
                            assert(cfg2[j] == cfg[j]);
                        } else if j > p {
                            assert(cfg2[j] == cfg[j - 1]);
                        }
                    }
                    lemma_sensitive_none(cfg2);
                } else {
                    assert forall|i: int| 0 <= i < out2.len() implies (#[trigger] out2[i]).severity != Severity::Error by {
                        assert(c2[i].severity == Severity::Warning);
                    }
                }
            },
        }
    }
}

/// The rules, run on a configuration without `name` whose only errors are at
/// `name`, report no error once a conforming name is supplied.
proof fn lemma_lint_errors_cleared(
    lcfg: LinterConfig,
    rules: Seq<RuleView>,
    cfg: Seq<(Seq<char>, JsonView)>,
    name: Seq<char>,
    disabled: Set<Seq<char>>,
)
    requires
        !has_key(cfg, "name"@),
        follows_naming_convention(name),
        errors_only_at_name(lint_findings(lcfg, rules, cfg, disabled)),
    ensures
        forall|i: int|
            0 <= i < lint_findings(lcfg, rules, named(cfg, Some(name)), disabled).len() ==> (#[trigger] lint_findings(
                lcfg,
                rules,
                named(cfg, Some(name)),
                disabled,
            )[i]).severity != Severity::Error,
    decreases rules.len(),
{
    if rules.len() > 0 {
        let cfg2 = named(cfg, Some(name));
        let head = rules.drop_last();
        let rule = rules.last();
        let prev = lint_findings(lcfg, head, cfg, disabled);
        let out = rule_output(lcfg, rule, cfg, disabled);
        let all = lint_findings(lcfg, rules, cfg, disabled);
        assert(all == prev + out);
        assert forall|i: int| 0 <= i < prev.len() && (#[trigger] prev[i]).severity == Severity::Error implies prev[i].path
            == Some("name"@) by {
            assert(all[i] == prev[i]);
        }
        assert forall|i: int| 0 <= i < out.len() && (#[trigger] out[i]).severity == Severity::Error implies out[i].path
            == Some("name"@) by {
            assert(all[prev.len() + i] == out[i]);
        }
        lemma_lint_errors_cleared(lcfg, head, cfg, name, disabled);
        lemma_rule_errors_cleared(lcfg, rule, cfg, name, disabled);
        let prev2 = lint_findings(lcfg, head, cfg2, disabled);
        let out2 = rule_output(lcfg, rule, cfg2, disabled);
        let all2 = lint_findings(lcfg, rules, cfg2, disabled);
        assert(all2 == prev2 + out2);
        assert forall|i: int| 0 <= i < all2.len() implies (#[trigger] all2[i]).severity != Severity::Error by {
            if i < prev2.len() {
                assert(all2[i] == prev2[i]);
            } else {
                assert(all2[i] == out2[i - prev2.len()]);
            }
        }
    }
}

/// A configuration that lacks `name`, and whose only validation errors are
/// about `name`, validates once a name is supplied that the
/// `naming-convention` rule accepts: the report is valid, whatever the
/// linter's rules, overrides and exemptions.
pub proof fn law_supplied_name_makes_valid(
    linter: ConnectorLinter,
    cfg: Seq<(Seq<char>, JsonView)>,
    name: Seq<char>,
    disabled: Set<Seq<char>>,
)
    requires
        !has_key(cfg, "name"@),
        follows_naming_convention(name),
        errors_only_at_name(validation_findings(linter, cfg, disabled)),
    ensures
        count_severity(validation_findings(linter, named(cfg, Some(name)), disabled), Severity::Error) == 0,
{
    let cfg2 = named(cfg, Some(name));
    let rules = rule_views(linter.rules@);
    let lint = lint_findings(linter.config, rules, cfg, disabled);
    let schema = schema_findings(cfg);
    let all = validation_findings(linter, cfg, disabled);
    assert(all == lint + schema);
    assert forall|i: int| 0 <= i < lint.len() && (#[trigger] lint[i]).severity == Severity::Error implies lint[i].path
        == Some("name"@) by {
        assert(all[i] == lint[i]);
    }
    lemma_lint_errors_cleared(linter.config, rules, cfg, name, disabled);
    law_supplied_name_satisfies_checks(linter, cfg, name, disabled);
    lemma_schema_tail_avoids_name(cfg);
    let lint2 = lint_findings(linter.config, rules, cfg2, disabled);
    let schema2 = schema_findings(cfg2);
    let all2 = validation_findings(linter, cfg2, disabled);
    assert(all2 == lint2 + schema2);
    assert forall|i: int| 0 <= i < all2.len() implies (#[trigger] all2[i]).severity != Severity::Error by {
        if i < lint2.len() {
            assert(all2[i] == lint2[i]);
        } else {
            let k = i - lint2.len();
            assert(all2[i] == schema2[k]);
            assert(schema2[k] == schema[k + 1]);
            assert(all[lint.len() + k + 1] == schema[k + 1]);
        }
    }
    law_valid_iff_no_error_finding(all2);
}

/// A member that holds a secret: its lower-cased name contains `password`,
/// `secret`, `key` or `token`, and its value is a non-empty string other
/// than the placeholders `${env:VAR}` and `REPLACE_ME`.
pub open spec fn holds_secret(e: (Seq<char>, JsonView)) -> bool {
    &&& contains(ascii_lower(e.0), "password"@) || contains(ascii_lower(e.0), "secret"@) || contains(
        ascii_lower(e.0),
        "key"@,
    ) || contains(ascii_lower(e.0), "token"@)
    &&& e.1 matches JsonView::String(t) && t.len() > 0 && t != "${env:VAR}"@ && t != "REPLACE_ME"@
}

/// The `sensitive-data` warning about member `key`.
pub open spec fn secret_warning(key: Seq<char>) -> LintView {
    finding(
        "sensitive-data"@,
        Severity::Warning,
        "Potential sensitive data in '"@ + key + "'. Consider using environment variables"@,
        Some(key),
    )
}

/// `f` is the warning about a member of `cfg` that holds a secret.
pub open spec fn warns_of_secret_member(cfg: Seq<(Seq<char>, JsonView)>, f: LintView) -> bool {
    exists|j: int| #![trigger cfg[j]] 0 <= j < cfg.len() && holds_secret(cfg[j]) && f == secret_warning(cfg[j].0)
}

/// A member that holds a secret gets a `sensitive-data` warning at that
/// member.
pub proof fn law_secret_members_are_reported(cfg: Seq<(Seq<char>, JsonView)>, j: int)
    requires
        0 <= j < cfg.len(),
        holds_secret(cfg[j]),
    ensures
        exists|i: int|
            0 <= i < sensitive_findings(cfg).len() && #[trigger] sensitive_findings(cfg)[i] == secret_warning(cfg[j].0),
    decreases cfg.len(),
{
    let p = cfg.drop_last();
    let prev = sensitive_findings(p);
    let f = secret_warning(cfg[j].0);
    assert(sensitive_findings(cfg) == prev + sensitive_entry_findings(cfg.last()));
    if j == cfg.len() - 1 {
        assert(sensitive_entry_findings(cfg.last()) == seq![f]);
        assert(sensitive_findings(cfg)[prev.len() as int] == f);
    } else {
        assert(p[j] == cfg[j]);
        law_secret_members_are_reported(p, j);
        let i = choose|i: int| 0 <= i < prev.len() && #[trigger] prev[i] == f;
        assert(sensitive_findings(cfg)[i] == prev[i]);
    }
}

/// `sensitive-data` warns only of members that hold a secret, one warning
/// per such member, in member order.
pub proof fn law_sensitive_findings_only_for_secrets(cfg: Seq<(Seq<char>, JsonView)>)
    ensures
        forall|i: int|
            0 <= i < sensitive_findings(cfg).len() ==> warns_of_secret_member(cfg, #[trigger] sensitive_findings(cfg)[i]),
    decreases cfg.len(),
{
    if cfg.len() > 0 {
        let p = cfg.drop_last();
        law_sensitive_findings_only_for_secrets(p);
        let prev = sensitive_findings(p);
        let last = cfg.last();
        assert(last == cfg[cfg.len() - 1]);
        assert(sensitive_findings(cfg) == prev + sensitive_entry_findings(last));
        assert forall|i: int| 0 <= i < sensitive_findings(cfg).len() implies warns_of_secret_member(
            cfg,
            #[trigger] sensitive_findings(cfg)[i],
        ) by {
            if i < prev.len() {
                assert(sensitive_findings(cfg)[i] == prev[i]);
                assert(warns_of_secret_member(p, prev[i]));
                let j = choose|j: int| #![trigger p[j]] 0 <= j < p.len() && holds_secret(p[j]) && prev[i] == secret_warning(p[j].0);
                assert(p[j] == cfg[j]);
            } else {
                assert(sensitive_findings(cfg)[i] == secret_warning(last.0));
                assert(holds_secret(cfg[cfg.len() - 1]));
            }
        }
    }
}

/// `initial`, `always`, `never`, `when_needed` and `schema_only` are accepted
/// snapshot modes: with any of them neither the `debezium-snapshot-mode`
/// rule nor the schema reports `snapshot.mode`.
pub proof fn law_accepted_snapshot_modes(cfg: Seq<(Seq<char>, JsonView)>, mode: Seq<char>)
    requires
        entries_get(cfg, "snapshot.mode"@) == Some(JsonView::String(mode)),
        mode == "initial"@ || mode == "always"@ || mode == "never"@ || mode == "when_needed"@ || mode
            == "schema_only"@,
    ensures
        snapshot_mode_findings(cfg).len() == 0,
        forall|i: int|
            0 <= i < schema_findings(cfg).len() ==> (#[trigger] schema_findings(cfg)[i]).path != Some("snapshot.mode"@),
{
    reveal_strlit("snapshot.mode");
    reveal_strlit("name");
    reveal_strlit("connector.class");
    reveal_strlit("tasks.max");
    reveal_strlit("database.hostname");
    reveal_strlit("database.user");
    reveal_strlit("database.password");
    reveal_strlit("database.dbname");
    reveal_strlit("topic.prefix");
    reveal_strlit("topics");
    reveal_strlit("iceberg.catalog.warehouse");
    let pf = postgres_fields();
    let ic = iceberg_fields();
    assert forall|j: int| 0 <= j < pf.len() implies #[trigger] pf[j] != "snapshot.mode"@ by {
        assert(pf[j][0] == 'd' || pf[j][0] == 't');
        assert("snapshot.mode"@[0] == 's');
    }
    assert forall|j: int| 0 <= j < ic.len() implies #[trigger] ic[j] != "snapshot.mode"@ by {
        assert(ic[j].len() != 13);
    }
    lemma_string_fields_avoid(cfg, pf, "snapshot.mode"@);
    lemma_string_fields_avoid(cfg, ic, "snapshot.mode"@);
    let a = string_field_findings(cfg, "name"@);
    let b = string_field_findings(cfg, "connector.class"@);
    let c = tasks_schema_findings(cfg);
    let d = class_findings(cfg);
    let all = schema_findings(cfg);
    assert(all == a + b + c + d);
    assert("name"@.len() == 4 && "connector.class"@.len() == 15 && "tasks.max"@.len() == 9);
    assert("snapshot.mode"@.len() == 13);
    assert forall|i: int| 0 <= i < all.len() implies (#[trigger] all[i]).path != Some("snapshot.mode"@) by {
        if i < a.len() {
            assert(all[i] == a[i]);
            assert(a[i].path == Some("name"@));
        } else if i < a.len() + b.len() {
            assert(all[i] == b[i - a.len()]);
            assert(b[i - a.len()].path == Some("connector.class"@));
        } else if i < a.len() + b.len() + c.len() {
            assert(all[i] == c[i - a.len() - b.len()]);
            assert(c[i - a.len() - b.len()].path == Some("tasks.max"@));
        } else {
            let m = i - a.len() - b.len() - c.len();
            assert(all[i] == d[m]);
            match entries_get(cfg, "connector.class"@) {
                Some(JsonView::String(cls)) => {
                    if contains(cls, "PostgresConnector"@) {
                        let sp = string_fields_findings(cfg, pf);
                        assert(valid_snapshot_mode(mode));
                        assert(postgres_findings(cfg) =~= sp);
                        assert(d[m] == sp[m]);
                    } else if contains(cls, "IcebergSinkConnector"@) {
                        assert(d[m] == string_fields_findings(cfg, ic)[m]);
                    }
                },
                _ => {},
            }
        }
    }
}

/// Any other snapshot mode of a Debezium connector is warned about by the
/// `debezium-snapshot-mode` rule, and for the PostgreSQL connector the
/// schema refuses it as well.
pub proof fn law_unknown_snapshot_mode_reported(cfg: Seq<(Seq<char>, JsonView)>, class: Seq<char>, mode: Seq<char>)
    requires
        entries_get(cfg, "connector.class"@) == Some(JsonView::String(class)),
        contains(ascii_lower(class), "debezium"@),
        entries_get(cfg, "snapshot.mode"@) == Some(JsonView::String(mode)),
        !(mode == "initial"@ || mode == "always"@ || mode == "never"@ || mode == "when_needed"@ || mode
            == "schema_only"@),
    ensures
        snapshot_mode_findings(cfg) == seq![
            finding(
                "debezium-snapshot-mode"@,
                Severity::Warning,
                "Unknown snapshot.mode '"@ + mode + "'. Valid: initial, always, never, when_needed, schema_only"@,
                Some("snapshot.mode"@),
            ),
        ],
        contains(class, "PostgresConnector"@) ==> schema_findings(cfg).last() == field_finding(
            "snapshot.mode"@,
            "Value error, snapshot.mode must be one of [\"initial\", \"always\", \"never\", \"when_needed\", \"schema_only\"] for field snapshot.mode"@,
        ),
{
}

/// Without tables, or with an empty list, the signal names every
/// collection: `data-collections` is `["*"]`.
pub proof fn law_signal_without_tables_names_all(id: Seq<char>, tables: Option<Seq<Seq<char>>>, snapshot_type: Seq<char>)
    requires
        tables matches Some(t) ==> t.len() == 0,
    ensures
        signal_document(id, tables, snapshot_type).member("data"@) matches Some(data) && data.member(
            "data-collections"@,
        ) == Some(JsonView::Array(seq![JsonView::String("*"@)])),
{
    reveal_strlit("data");
    reveal_strlit("data-collections");
    let es = signal_document(id, tables, snapshot_type)->Object_0;
    assert(es[0].0 == "data"@);
    assert(index_of_key(es, "data"@) == 0);
    let ds = es[0].1->Object_0;
    assert(ds[0].0 == "data-collections"@);
    assert(index_of_key(ds, "data-collections"@) == 0);
    assert(string_views(seq!["*"@]) =~= seq![JsonView::String("*"@)]);
}

/// The `execute-snapshot` signal for a non-empty list of tables names
/// exactly those tables, all of them, in the order given, and carries the
/// signal ID and snapshot type.
pub proof fn law_signal_names_all_tables(id: Seq<char>, tables: Seq<Seq<char>>, snapshot_type: Seq<char>)
    requires
        tables.len() > 0,
    ensures
        signal_document(id, Some(tables), snapshot_type).member("data"@) matches Some(data) && data.member(
            "data-collections"@,
        ) matches Some(JsonView::Array(cols)) && cols.len() == tables.len() && (forall|i: int|
            0 <= i < tables.len() ==> #[trigger] cols[i] == JsonView::String(tables[i])) && data.member("type"@)
            == Some(JsonView::String(snapshot_type)),
        signal_document(id, Some(tables), snapshot_type).member("id"@) == Some(JsonView::String(id)),
        signal_document(id, Some(tables), snapshot_type).member("type"@) == Some(JsonView::String("execute-snapshot"@)),
{
    reveal_strlit("data");
    reveal_strlit("data-collections");
    reveal_strlit("type");
    reveal_strlit("id");
    let doc = signal_document(id, Some(tables), snapshot_type);
    let es = doc->Object_0;
    assert(es.len() == 3);
    assert(es[1] == ("id"@, JsonView::String(id)));
    assert(es[0].0 == "data"@);
    assert(index_of_key(es, "data"@) == 0);
    assert("id"@.len() == 2 && "type"@.len() == 4 && "data"@.len() == 4);
    assert("data"@[0] == 'd' && "type"@[0] == 't');
    assert(es[1].0 != "type"@);
    assert(es[0].0 != "type"@);
    assert(es[0].0 != "id"@);
    assert(index_of_key(es.drop_first(), "id"@) == 0);
    assert(index_of_key(es, "id"@) == 1);
    assert(index_of_key(es.drop_first().drop_first(), "type"@) == 0);
    assert(index_of_key(es.drop_first(), "type"@) == 1);
    assert(index_of_key(es, "type"@) == 2);
    let data = es[0].1;
    let ds = data->Object_0;
    assert(ds.len() == 2);
    assert(ds[0].0 == "data-collections"@);
    assert(index_of_key(ds, "data-collections"@) == 0);
    assert(ds[0].0 != "type"@);
    assert(index_of_key(ds.drop_first(), "type"@) == 0);
    assert(index_of_key(ds, "type"@) == 1);
}

/// The running-task count counts exactly the tasks whose `state` is the
/// string `RUNNING`; a task in any other state, or without one, is not
/// counted.
pub proof fn law_running_count_is_running_tasks(tasks: Seq<JsonView>)
    ensures
        count_running(tasks) == tasks.filter(
            |t: JsonView| t.member("state"@) == Some(JsonView::String("RUNNING"@)),
        ).len(),
    decreases tasks.len(),
{
    reveal(Seq::filter);
    if tasks.len() > 0 {
        law_running_count_is_running_tasks(tasks.drop_last());
    }
}

/// `line` is the `config:` line of a member of `rest`.
pub open spec fn line_of_member(rest: Seq<(Seq<char>, JsonView)>, line: Seq<char>) -> bool {
    exists|k: Seq<char>| #[trigger] entries_get(rest, k) is Some && line == config_line(k, entries_get(rest, k)->0)
}

/// Every line of a `config:` block is the line of a member of the table it
/// is built from.
proof fn lemma_config_lines_from(rest: Seq<(Seq<char>, JsonView)>, keys: Seq<Seq<char>>)
    ensures
        forall|i: int|
            0 <= i < config_lines(rest, keys).len() ==> line_of_member(rest, #[trigger] config_lines(rest, keys)[i]),
    decreases keys.len(),
{
    if keys.len() > 0 {
        let p = keys.drop_last();
        lemma_config_lines_from(rest, p);
        let prev = config_lines(rest, p);
        let k = keys.last();
        match entries_get(rest, k) {
            Some(v) => {
                assert(config_lines(rest, keys) == prev.push(config_line(k, v)));
                assert(line_of_member(rest, config_line(k, v))) by {
                    assert(entries_get(rest, k) is Some);
                }
                assert forall|i: int| 0 <= i < config_lines(rest, keys).len() implies line_of_member(
                    rest,
                    #[trigger] config_lines(rest, keys)[i],
                ) by {
                    if i < prev.len() {
                        assert(config_lines(rest, keys)[i] == prev[i]);
                    }
                }
            },
            None => {
                assert(config_lines(rest, keys) == prev);
            },
        }
    }
}

/// `line` is the `config:` line of a member of `cfg` other than
/// `tasks.max` and `connector.class`.
pub open spec fn line_of_config_member(cfg: Seq<(Seq<char>, JsonView)>, line: Seq<char>) -> bool {
    exists|j: int|
        #![trigger cfg[j]]
        0 <= j < cfg.len() && cfg[j].0 != "tasks.max"@ && cfg[j].0 != "connector.class"@ && line == config_line(
            cfg[j].0,
            cfg[j].1,
        )
}

/// In the exported Strimzi document, `connector.class` and `tasks.max` appear
/// only as `spec.class` and `spec.tasksMax`: every line of the `config:`
/// block is the line of another member of the configuration.
pub proof fn law_yaml_config_omits_spec_keys(name: Seq<char>, cfg: Seq<(Seq<char>, JsonView)>, cluster: Seq<char>)
    requires
        keys_sorted(cfg),
    ensures
        strimzi_yaml(name, cfg, cluster) == crate::text::join(
            yaml_header(name, cfg, cluster) + yaml_config_block(cfg),
            "\n"@,
        ),
        forall|i: int|
            0 <= i < yaml_config_block(cfg).len() ==> line_of_config_member(cfg, #[trigger] yaml_config_block(cfg)[i]),
{
    reveal_strlit("tasks.max");
    reveal_strlit("connector.class");
    let cc = "connector.class"@;
    let tm = "tasks.max"@;
    let mid = entries_remove(cfg, cc);
    let rest = yaml_rest(cfg);
    assert(tm.len() != cc.len());
    law_remove_keeps_keys_sorted(cfg, cc);
    law_get_after_remove(cfg, cc);
    law_get_after_remove(mid, tm);
    lemma_get_after_remove_other(mid, tm, cc);
    let block = yaml_config_block(cfg);
    lemma_config_lines_from(rest, sort_strings(entry_keys(rest)));
    assert forall|i: int| 0 <= i < block.len() implies line_of_config_member(cfg, #[trigger] block[i]) by {
        assert(line_of_member(rest, block[i]));
        let k = choose|k: Seq<char>| #[trigger] entries_get(rest, k) is Some && block[i] == config_line(
            k,
            entries_get(rest, k)->0,
        );
        assert(k != tm);
        assert(k != cc);
        lemma_get_after_remove_other(mid, tm, k);
        lemma_get_after_remove_other(cfg, cc, k);
        lemma_index_of_key_first(cfg, k);
        lemma_index_of_key_bound(cfg, k);
        let j = index_of_key(cfg, k);
        assert(cfg[j].0 == k);
        assert(block[i] == config_line(cfg[j].0, cfg[j].1));
    }
}

/// The `config:` lines built over `keys` include the line of every listed
/// key that the table has.
proof fn lemma_config_lines_has(rest: Seq<(Seq<char>, JsonView)>, keys: Seq<Seq<char>>, m: int)
    requires
        0 <= m < keys.len(),
        entries_get(rest, keys[m]) is Some,
    ensures
        config_lines(rest, keys).contains(config_line(keys[m], entries_get(rest, keys[m])->0)),
    decreases keys.len(),
{
    let p = keys.drop_last();
    let prev = config_lines(rest, p);
    let line = config_line(keys[m], entries_get(rest, keys[m])->0);
    if m == keys.len() - 1 {
        assert(config_lines(rest, keys) == prev.push(line));
        assert(config_lines(rest, keys)[prev.len() as int] == line);
    } else {
        assert(p[m] == keys[m]);
        lemma_config_lines_has(rest, p, m);
        let i = choose|i: int| 0 <= i < prev.len() && prev[i] == line;
        match entries_get(rest, keys.last()) {
            Some(v) => {
                assert(config_lines(rest, keys) == prev.push(config_line(keys.last(), v)));
                assert(config_lines(rest, keys)[i] == line);
            },
            None => {
                assert(config_lines(rest, keys) == prev);
            },
        }
    }
}

/// Every member of the configuration other than `connector.class` and
/// `tasks.max` has its line in the exported document's `config:` block.
pub proof fn law_yaml_config_keeps_other_members(cfg: Seq<(Seq<char>, JsonView)>, j: int)
    requires
        keys_sorted(cfg),
        0 <= j < cfg.len(),
        cfg[j].0 != "tasks.max"@,
        cfg[j].0 != "connector.class"@,
    ensures
        yaml_config_block(cfg).contains(config_line(cfg[j].0, cfg[j].1)),
{
    broadcast use vstd::seq_lib::group_to_multiset_ensures;
    let cc = "connector.class"@;
    let tm = "tasks.max"@;
    let k = cfg[j].0;
    let mid = entries_remove(cfg, cc);
    let rest = yaml_rest(cfg);
    assert forall|i: int| 0 <= i < j implies #[trigger] cfg[i].0 != k by {
        assert(seq_lt(cfg[i].0, cfg[j].0));
        lemma_seq_lt_irreflexive(k);
    }
    lemma_index_of_key_unique(cfg, k, j);
    lemma_get_after_remove_other(cfg, cc, k);
    lemma_get_after_remove_other(mid, tm, k);
    assert(entries_get(rest, k) == Some(cfg[j].1));
    lemma_index_of_key_bound(rest, k);
    lemma_index_of_key_first(rest, k);
    let r = index_of_key(rest, k);
    let ks = entry_keys(rest);
    assert(ks[r] == k);
    assert(ks.contains(k));
    let sorted = sort_strings(ks);
    law_sort_strings_sorted(ks);
    assert(sorted.to_multiset().count(k) > 0);
    assert(sorted.contains(k));
    let m = choose|m: int| 0 <= m < sorted.len() && sorted[m] == k;
    lemma_config_lines_has(rest, sorted, m);
}

} // verus!
