//! The dashboard: cluster metadata, counts of connectors and tasks by state,
//! the failed connectors and tasks, and one line per connector.
use vstd::prelude::*;
use vstd::utf8::{decode_utf8, encode_utf8, is_char_boundary};
use crate::connect::types::{ClusterInfo, ConnectorPlugin};
use crate::json::{items_view, json_compact, lemma_items_view_index, lemma_members_view_index, JsonObject, JsonValue,
    JsonView};
use crate::text::{concat2, concat4, lemma_seq_lt_irreflexive, lemma_seq_lt_transitive, lemma_seq_lt_trichotomy,
    opt_str_view, opt_view, seq_lt, str_eq, str_lt, to_owned_string};
use crate::ui::connectors::{
    connector_state, connector_state_of, count_running, lemma_count_running_bound, lemma_sort_by_name_map,
    member2, running_count, sort_by_name, sorted_by_name, status_view, str_of, str_or, task_in_state,
    task_state_is, tasks_of, tasks_ref,
};
use crate::ui::views::{failed_item_views, status_count_views, summary_views, ConnectorSummary,
    ConnectorSummaryView, DashboardMetrics, DashboardPage, FailedItem, FailedItemView, StatusCount,
    StatusCountView};

verus! {

broadcast use vstd::string::group_string_axioms;

/// A trace can be cut after its 200th byte without splitting a character.
pub open spec fn cut_safe(trace: Option<Seq<char>>) -> bool {
    match trace {
        Some(t) => encode_utf8(t).len() <= 200 || is_char_boundary(encode_utf8(t), 200),
        None => true,
    }
}

/// The error shown for a failure: its trace, cut after the first 200 bytes
/// and then marked `...`; `Unknown error` when there is no trace.
pub open spec fn shown_error(trace: Option<Seq<char>>) -> Seq<char> {
    match trace {
        None => "Unknown error"@,
        Some(t) => if encode_utf8(t).len() <= 200 {
            t
        } else {
            decode_utf8(encode_utf8(t).take(200)) + "..."@
        },
    }
}

/// The error shown for a failure with the given trace.
pub fn truncate_error(trace: Option<&str>) -> (r: String)
    requires
        cut_safe(opt_str_view(trace)),
    ensures
        r@ == shown_error(opt_str_view(trace)),
{
    match trace {
        None => to_owned_string("Unknown error"),
        Some(t) => {
            if t.as_bytes().len() <= 200 {
                to_owned_string(t)
            } else {
                let (head, _) = t.split_at(200);
                proof {
                    vstd::utf8::encode_utf8_decode_utf8(head@);
                }
                concat2(head, "...")
            }
        },
    }
}

/// Whether a trace is cut safely (see [`cut_safe`]).
pub fn trace_cut_safe(trace: Option<&str>) -> (r: bool)
    ensures
        r == cut_safe(opt_str_view(trace)),
{
    match trace {
        None => true,
        Some(t) => t.as_bytes().len() <= 200 || t.is_char_boundary(200),
    }
}

/// `info.type`, `unknown` when it is not a string.
pub open spec fn connector_type(info: JsonView) -> Seq<char> {
    str_or(member2(info, "info"@, "type"@), "unknown"@)
}

/// `status.connector.trace`.
pub open spec fn connector_trace(info: JsonView) -> Option<Seq<char>> {
    str_of(member2(status_view(info), "connector"@, "trace"@))
}

/// A task's `trace`.
pub open spec fn task_trace(task: JsonView) -> Option<Seq<char>> {
    str_of(task.member("trace"@))
}

/// A task's `id` as JSON text, `?` when absent.
pub open spec fn task_id_text(task: JsonView) -> Seq<char> {
    match task.member("id"@) {
        Some(v) => json_compact(v),
        None => "?"@,
    }
}

/// The failed tasks of connector `name`, in order.
pub open spec fn task_failures(name: Seq<char>, ts: Seq<JsonView>) -> Seq<FailedItemView>
    decreases ts.len(),
{
    if ts.len() == 0 {
        seq![]
    } else {
        let prev = task_failures(name, ts.drop_last());
        let t = ts.last();
        if task_in_state(t, "FAILED"@) {
            prev.push(
                FailedItemView {
                    name: name + " (Task "@ + task_id_text(t) + ")"@,
                    kind: "Task"@,
                    error: shown_error(task_trace(t)),
                },
            )
        } else {
            prev
        }
    }
}

/// The failures of one connector: itself when `FAILED`, then its failed tasks.
pub open spec fn entry_failures(name: Seq<char>, info: JsonView) -> Seq<FailedItemView> {
    let own = if connector_state(info) == "FAILED"@ {
        seq![FailedItemView { name, kind: "Connector"@, error: shown_error(connector_trace(info)) }]
    } else {
        seq![]
    };
    own + task_failures(name, tasks_of(info))
}

/// The traces of failed tasks can be cut safely.
pub open spec fn tasks_cut_safe(ts: Seq<JsonView>) -> bool {
    forall|j: int| 0 <= j < ts.len() && task_in_state(#[trigger] ts[j], "FAILED"@) ==> cut_safe(task_trace(ts[j]))
}

/// The traces shown for a connector can be cut safely.
pub open spec fn entry_cut_safe(info: JsonView) -> bool {
    &&& connector_state(info) == "FAILED"@ ==> cut_safe(connector_trace(info))
    &&& tasks_cut_safe(tasks_of(info))
}

/// The dashboard's line for one connector.
pub open spec fn summary_of(name: Seq<char>, info: JsonView) -> ConnectorSummaryView {
    ConnectorSummaryView {
        name,
        connector_type: connector_type(info),
        state: connector_state(info),
        tasks_running: count_running(tasks_of(info)),
        tasks_total: tasks_of(info).len(),
    }
}

/// The failed tasks of connector `name`.
fn task_failures_of(name: &str, tasks: &Vec<JsonValue>) -> (r: Vec<FailedItem>)
    requires
        tasks_cut_safe(items_view(tasks@)),
    ensures
        failed_item_views(r@) == task_failures(name@, items_view(tasks@)),
{
    let ghost ts = items_view(tasks@);
    proof {
        lemma_items_view_index(tasks@);
    }
    let mut out: Vec<FailedItem> = Vec::new();
    let mut i: usize = 0;
    while i < tasks.len()
        invariant
            i <= tasks.len(),
            ts == items_view(tasks@),
            ts.len() == tasks.len(),
            forall|k: int| 0 <= k < tasks.len() ==> #[trigger] ts[k] == tasks@[k]@,
            tasks_cut_safe(ts),
            failed_item_views(out@) == task_failures(name@, ts.take(i as int)),
        decreases tasks.len() - i,
    {
        let task = &tasks[i];
        assert(ts.take(i + 1).drop_last() =~= ts.take(i as int));
        assert(ts.take(i + 1).last() == task@);
        if task_state_is(task, "FAILED") {
            let id = match task.member("id") {
                Some(v) => v.to_compact(),
                None => to_owned_string("?"),
            };
            let trace = match task.member("trace") {
                Some(v) => match v.as_str() {
                    Some(s) => Some(s.as_str()),
                    None => None,
                },
                None => None,
            };
            assert(task_in_state(ts[i as int], "FAILED"@));
            assert(opt_str_view(trace) == task_trace(task@));
            let error = truncate_error(trace);
            let item = FailedItem {
                name: concat4(name, " (Task ", id.as_str(), ")"),
                kind: to_owned_string("Task"),
                error,
            };
            let ghost before = out@;
            out.push(item);
            assert(failed_item_views(out@) =~= failed_item_views(before).push(item@));
            assert(item@.name =~= name@ + " (Task "@ + task_id_text(task@) + ")"@);
        }
        i = i + 1;
    }
    assert(ts.take(tasks.len() as int) =~= ts);
    out
}

/// The failures of one connector.
fn entry_failures_of(name: &str, info: &JsonValue, state: &str) -> (r: Vec<FailedItem>)
    requires
        state@ == connector_state(info@),
        entry_cut_safe(info@),
    ensures
        failed_item_views(r@) == entry_failures(name@, info@),
{
    let mut out: Vec<FailedItem> = Vec::new();
    if str_eq(state, "FAILED") {
        let trace = match info.member("status") {
            Some(status) => match status.member("connector") {
                Some(c) => match c.member("trace") {
                    Some(v) => match v.as_str() {
                        Some(s) => Some(s.as_str()),
                        None => None,
                    },
                    None => None,
                },
                None => None,
            },
            None => None,
        };
        assert(opt_str_view(trace) == connector_trace(info@));
        let error = truncate_error(trace);
        out.push(FailedItem { name: to_owned_string(name), kind: to_owned_string("Connector"), error });
    }
    let ghost own = failed_item_views(out@);
    match tasks_ref(info) {
        Some(ts) => {
            let more = task_failures_of(name, ts);
            let mut j: usize = 0;
            let ghost start = out@;
            while j < more.len()
                invariant
                    j <= more.len(),
                    failed_item_views(out@) == own + failed_item_views(more@).take(j as int),
                decreases more.len() - j,
            {
                let it = &more[j];
                let copy = FailedItem { name: it.name.clone(), kind: it.kind.clone(), error: it.error.clone() };
                let ghost before = out@;
                out.push(copy);
                assert(failed_item_views(out@) =~= failed_item_views(before).push(copy@));
                assert(failed_item_views(more@).take(j + 1) =~= failed_item_views(more@).take(j as int).push(
                    more@[j as int]@,
                ));
                j = j + 1;
            }
            assert(failed_item_views(more@).take(more.len() as int) =~= failed_item_views(more@));
        },
        None => {
            assert(task_failures(name@, tasks_of(info@)) =~= Seq::<FailedItemView>::empty());
            assert(own + Seq::<FailedItemView>::empty() =~= own);
        },
    }
    proof {
        if state@ == "FAILED"@ {
        } else {
            assert(own =~= Seq::<FailedItemView>::empty());
        }
    }
    assert(failed_item_views(out@) =~= entry_failures(name@, info@));
    out
}

/// The dashboard's line for one connector.
fn summary_for(name: &str, info: &JsonValue, state: String) -> (r: ConnectorSummary)
    requires
        state@ == connector_state(info@),
    ensures
        r@ == summary_of(name@, info@),
{
    let connector_type = match info.member("info") {
        Some(i) => match i.member("type") {
            Some(v) => match v.as_str() {
                Some(s) => s.clone(),
                None => to_owned_string("unknown"),
            },
            None => to_owned_string("unknown"),
        },
        None => to_owned_string("unknown"),
    };
    let (running, total) = match tasks_ref(info) {
        Some(ts) => {
            proof {
                lemma_items_view_index(ts@);
                lemma_count_running_bound(tasks_of(info@));
            }
            (running_count(ts), ts.len())
        },
        None => (0, 0),
    };
    ConnectorSummary {
        name: to_owned_string(name),
        connector_type,
        state,
        tasks_running: running,
        tasks_total: total,
    }
}

/// How many connectors are in state `st`.
pub open spec fn count_state(es: Seq<(Seq<char>, JsonView)>, st: Seq<char>) -> nat
    decreases es.len(),
{
    if es.len() == 0 {
        0
    } else {
        count_state(es.drop_last(), st) + if connector_state(es.last().1) == st {
            1nat
        } else {
            0nat
        }
    }
}

pub proof fn lemma_count_state_bound(es: Seq<(Seq<char>, JsonView)>, st: Seq<char>)
    ensures
        count_state(es, st) <= es.len(),
    decreases es.len(),
{
    if es.len() > 0 {
        lemma_count_state_bound(es.drop_last(), st);
    }
}

/// `d` lists each state that some connector is in, once, in ascending order,
/// with the number of connectors in it.
pub open spec fn lists_state_counts(d: Seq<StatusCountView>, es: Seq<(Seq<char>, JsonView)>) -> bool {
    &&& forall|i: int, j: int| 0 <= i < j < d.len() ==> seq_lt(#[trigger] d[i].state, #[trigger] d[j].state)
    &&& forall|i: int| 0 <= i < d.len() ==> #[trigger] d[i].count == count_state(es, d[i].state) && d[i].count > 0
    &&& forall|st: Seq<char>| #[trigger] count_state(es, st) > 0 ==> exists|i: int| 0 <= i < d.len() && d[i].state == st
}

/// Counts connector `e`, of state `state`, into the distribution of `es`.
fn count_into(
    dist: &mut Vec<StatusCount>,
    state: String,
    Ghost(es): Ghost<Seq<(Seq<char>, JsonView)>>,
    Ghost(e): Ghost<(Seq<char>, JsonView)>,
)
    requires
        lists_state_counts(status_count_views(old(dist)@), es),
        connector_state(e.1) == state@,
        es.len() + 1 <= usize::MAX,
    ensures
        lists_state_counts(status_count_views(final(dist)@), es.push(e)),
{
    let ghost d = status_count_views(dist@);
    let ghost es2 = es.push(e);
    let ghost s = state@;
    proof {
        lemma_count_state_bound(es, s);
        lemma_seq_lt_irreflexive(s);
        assert(es2.drop_last() =~= es);
        assert forall|t: Seq<char>| #[trigger] count_state(es2, t) == count_state(es, t) + if t == s {
            1nat
        } else {
            0nat
        } by {
            assert(es2.drop_last() =~= es);
        }
    }
    let mut p: usize = 0;
    while p < dist.len() && str_lt(dist[p].state.as_str(), state.as_str())
        invariant
            p <= dist.len(),
            d == status_count_views(dist@),
            d.len() == dist.len(),
            s == state@,
            forall|k: int| 0 <= k < p ==> seq_lt(#[trigger] d[k].state, s),
        decreases dist.len() - p,
    {
        assert(d[p as int] == dist@[p as int]@);
        assert(seq_lt(d[p as int].state, s));
        p += 1;
    }
    if p < dist.len() && str_eq(dist[p].state.as_str(), state.as_str()) {
        assert(d[p as int] == dist@[p as int]@);
        assert(d[p as int].state == s);
        assert(d[p as int].count == count_state(es, s));
        let mut item = dist.remove(p);
        assert(item@ == d[p as int]);
        item.count = item.count + 1;
        let ghost iv = item@;
        dist.insert(p, item);
        proof {
            let d2 = status_count_views(dist@);
            assert(d2 =~= d.update(p as int, iv));
            assert forall|i: int| 0 <= i < d2.len() && i != p implies #[trigger] d2[i].state != s by {
                if i < p {
                    assert(seq_lt(d[i].state, d[p as int].state));
                } else {
                    assert(seq_lt(d[p as int].state, d[i].state));
                }
            }
            assert forall|st: Seq<char>| #[trigger] count_state(es2, st) > 0 implies exists|i: int|
                0 <= i < d2.len() && d2[i].state == st by {
                if st == s {
                    assert(d2[p as int].state == st);
                } else {
                    assert(count_state(es, st) > 0);
                    let i = choose|i: int| 0 <= i < d.len() && d[i].state == st;
                    assert(d2[i].state == st);
                }
            }
        }
    } else {
        let ghost iv = StatusCountView { state: s, count: 1 };
        dist.insert(p, StatusCount { state, count: 1 });
        proof {
            let d2 = status_count_views(dist@);
            assert(d2 =~= d.insert(p as int, iv));
            if p < d.len() {
                assert(d[p as int] == dist@[p as int + 1]@);
                lemma_seq_lt_trichotomy(d[p as int].state, s);
            }
            assert forall|k: int| p <= k < d.len() implies seq_lt(s, #[trigger] d[k].state) by {
                lemma_seq_lt_trichotomy(d[p as int].state, s);
                if k > p {
                    assert(seq_lt(d[p as int].state, d[k].state));
                    lemma_seq_lt_transitive(s, d[p as int].state, d[k].state);
                }
            }
            if count_state(es, s) > 0 {
                let i = choose|i: int| 0 <= i < d.len() && d[i].state == s;
                if i >= p {
                    assert(seq_lt(s, d[i].state));
                }
                assert(false);
            }
            assert forall|i: int, j: int| 0 <= i < j < d2.len() implies seq_lt(
                #[trigger] d2[i].state,
                #[trigger] d2[j].state,
            ) by {
                if j < p {
                    assert(d2[i] == d[i] && d2[j] == d[j]);
                } else if j == p {
                    assert(d2[i] == d[i]);
                } else if i < p {
                    assert(d2[i] == d[i] && d2[j] == d[j - 1]);
                    lemma_seq_lt_transitive(d[i].state, s, d[j - 1].state);
                } else if i == p {
                    assert(d2[j] == d[j - 1]);
                } else {
                    assert(d2[i] == d[i - 1] && d2[j] == d[j - 1]);
                }
            }
            assert forall|i: int| 0 <= i < d2.len() implies #[trigger] d2[i].count == count_state(
                es2,
                d2[i].state,
            ) && d2[i].count > 0 by {
                if i < p {
                    assert(d2[i] == d[i]);
                } else if i > p {
                    assert(d2[i] == d[i - 1]);
                    assert(d[i - 1].state != s);
                }
            }
            assert forall|st: Seq<char>| #[trigger] count_state(es2, st) > 0 implies exists|i: int|
                0 <= i < d2.len() && d2[i].state == st by {
                if st == s {
                    assert(d2[p as int].state == st);
                } else {
                    assert(count_state(es, st) > 0);
                    let i = choose|i: int| 0 <= i < d.len() && d[i].state == st;
                    if i < p {
                        assert(d2[i].state == st);
                    } else {
                        assert(d2[i + 1].state == st);
                    }
                }
            }
        }
    }
}

/// How many tasks the connectors have.
pub open spec fn total_tasks(es: Seq<(Seq<char>, JsonView)>) -> nat
    decreases es.len(),
{
    if es.len() == 0 {
        0
    } else {
        total_tasks(es.drop_last()) + tasks_of(es.last().1).len()
    }
}

/// How many of the connectors' tasks are `RUNNING`.
pub open spec fn total_running(es: Seq<(Seq<char>, JsonView)>) -> nat
    decreases es.len(),
{
    if es.len() == 0 {
        0
    } else {
        total_running(es.drop_last()) + count_running(tasks_of(es.last().1))
    }
}

pub proof fn lemma_total_running_bound(es: Seq<(Seq<char>, JsonView)>)
    ensures
        total_running(es) <= total_tasks(es),
    decreases es.len(),
{
    if es.len() > 0 {
        lemma_total_running_bound(es.drop_last());
        lemma_count_running_bound(tasks_of(es.last().1));
    }
}

proof fn lemma_total_tasks_prefix(es: Seq<(Seq<char>, JsonView)>, k: int)
    requires
        0 <= k <= es.len(),
    ensures
        total_tasks(es.take(k)) <= total_tasks(es),
    decreases es.len(),
{
    if k == es.len() {
        assert(es.take(k) =~= es);
    } else {
        assert(es.drop_last().take(k) =~= es.take(k));
        lemma_total_tasks_prefix(es.drop_last(), k);
    }
}

/// The failures of all connectors, in the reply's order.
pub open spec fn dashboard_failures(es: Seq<(Seq<char>, JsonView)>) -> Seq<FailedItemView>
    decreases es.len(),
{
    if es.len() == 0 {
        seq![]
    } else {
        dashboard_failures(es.drop_last()) + entry_failures(es.last().0, es.last().1)
    }
}

/// One line per connector, in the reply's order.
pub open spec fn summaries(es: Seq<(Seq<char>, JsonView)>) -> Seq<ConnectorSummaryView> {
    es.map_values(|e: (Seq<char>, JsonView)| summary_of(e.0, e.1))
}

/// What the dashboard needs of a reply: every trace it shows can be cut
/// safely, and the number of tasks fits in a `usize`.
pub open spec fn dashboard_ready(es: Seq<(Seq<char>, JsonView)>) -> bool {
    &&& forall|k: int| 0 <= k < es.len() ==> entry_cut_safe(#[trigger] es[k].1)
    &&& total_tasks(es) <= usize::MAX
}

/// Whether the traces of a task list can be cut safely.
fn tasks_ready(tasks: &Vec<JsonValue>) -> (r: bool)
    ensures
        r == tasks_cut_safe(items_view(tasks@)),
{
    let ghost ts = items_view(tasks@);
    proof {
        lemma_items_view_index(tasks@);
    }
    let mut i: usize = 0;
    while i < tasks.len()
        invariant
            i <= tasks.len(),
            ts == items_view(tasks@),
            ts.len() == tasks.len(),
            forall|k: int| 0 <= k < tasks.len() ==> #[trigger] ts[k] == tasks@[k]@,
            forall|j: int| 0 <= j < i && task_in_state(#[trigger] ts[j], "FAILED"@) ==> cut_safe(task_trace(ts[j])),
        decreases tasks.len() - i,
    {
        let task = &tasks[i];
        if task_state_is(task, "FAILED") {
            let trace = match task.member("trace") {
                Some(v) => match v.as_str() {
                    Some(s) => Some(s.as_str()),
                    None => None,
                },
                None => None,
            };
            assert(opt_str_view(trace) == task_trace(ts[i as int]));
            if !trace_cut_safe(trace) {
                return false;
            }
        }
        i = i + 1;
    }
    true
}

/// Whether a reply can be shown on the dashboard (see [`dashboard_ready`]).
pub fn dashboard_inputs_ok(all: &JsonObject) -> (r: bool)
    ensures
        r == dashboard_ready(all@),
{
    let ghost es = all@;
    proof {
        lemma_members_view_index(all.entries@);
    }
    let mut total: usize = 0;
    let mut i: usize = 0;
    while i < all.entries.len()
        invariant
            i <= all.entries.len(),
            es == all@,
            es.len() == all.entries.len(),
            forall|k: int|
                0 <= k < all.entries.len() ==> #[trigger] es[k] == (all.entries@[k].0@, all.entries@[k].1@),
            forall|k: int| 0 <= k < i ==> entry_cut_safe(#[trigger] es[k].1),
            total == total_tasks(es.take(i as int)),
        decreases all.entries.len() - i,
    {
        let info = &all.entries[i].1;
        assert(es.take(i + 1).drop_last() =~= es.take(i as int));
        assert(es.take(i + 1).last() == es[i as int]);
        let state = connector_state_of(info);
        if str_eq(state.as_str(), "FAILED") {
            let trace = match info.member("status") {
                Some(status) => match status.member("connector") {
                    Some(c) => match c.member("trace") {
                        Some(v) => match v.as_str() {
                            Some(s) => Some(s.as_str()),
                            None => None,
                        },
                        None => None,
                    },
                    None => None,
                },
                None => None,
            };
            assert(opt_str_view(trace) == connector_trace(info@));
            if !trace_cut_safe(trace) {
                assert(!entry_cut_safe(es[i as int].1));
                return false;
            }
        }
        let n: usize = match tasks_ref(info) {
            Some(ts) => {
                proof {
                    lemma_items_view_index(ts@);
                }
                if !tasks_ready(ts) {
                    return false;
                }
                ts.len()
            },
            None => 0,
        };
        if total > usize::MAX - n {
            proof {
                lemma_total_tasks_prefix(es, i + 1);
            }
            return false;
        }
        total = total + n;
        i = i + 1;
    }
    assert(es.take(all.entries.len() as int) =~= es);
    true
}

/// The dashboard for a cluster's metadata, its plugins and the connectors of
/// a `/connectors?expand=status&expand=info` reply.
pub fn build_dashboard(
    cluster: &ClusterInfo,
    plugins: &Vec<ConnectorPlugin>,
    all: &JsonObject,
    flash: Option<String>,
) -> (r: DashboardPage)
    requires
        dashboard_ready(all@),
    ensures
        r.active@ == "dashboard"@,
        r.version@ == match cluster.version {
            Some(v) => v@,
            None => "Unknown"@,
        },
        r.kafka_cluster_id@ == match cluster.kafka_cluster_id {
            Some(v) => v@,
            None => "Unknown"@,
        },
        r.plugins == plugins.len(),
        r.metrics.total_connectors == all@.len(),
        r.metrics.running_connectors == count_state(all@, "RUNNING"@),
        r.metrics.failed_connectors == count_state(all@, "FAILED"@),
        r.metrics.running_tasks == total_running(all@),
        r.metrics.total_tasks == total_tasks(all@),
        lists_state_counts(status_count_views(r.status_distribution@), all@),
        failed_item_views(r.failures@) == dashboard_failures(all@),
        summary_views(r.connectors@) == sort_by_name(summaries(all@)),
        opt_view(r.flash) == opt_view(flash),
{
    let ghost es = all@;
    proof {
        lemma_members_view_index(all.entries@);
        lemma_total_running_bound(es);
    }
    let mut dist: Vec<StatusCount> = Vec::new();
    let mut running_connectors: usize = 0;
    let mut failed_connectors: usize = 0;
    let mut task_total: usize = 0;
    let mut task_running: usize = 0;
    let mut failures: Vec<FailedItem> = Vec::new();
    let mut rows: Vec<ConnectorSummary> = Vec::new();
    let mut i: usize = 0;
    assert(es.take(0) =~= Seq::<(Seq<char>, JsonView)>::empty());
    while i < all.entries.len()
        invariant
            i <= all.entries.len(),
            es == all@,
            es.len() == all.entries.len(),
            forall|k: int|
                0 <= k < all.entries.len() ==> #[trigger] es[k] == (all.entries@[k].0@, all.entries@[k].1@),
            dashboard_ready(es),
            total_running(es) <= total_tasks(es),
            lists_state_counts(status_count_views(dist@), es.take(i as int)),
            running_connectors == count_state(es.take(i as int), "RUNNING"@),
            failed_connectors == count_state(es.take(i as int), "FAILED"@),
            task_total == total_tasks(es.take(i as int)),
            task_running == total_running(es.take(i as int)),
            failed_item_views(failures@) == dashboard_failures(es.take(i as int)),
            summary_views(rows@) == summaries(es.take(i as int)),
        decreases all.entries.len() - i,
    {
        let name = &all.entries[i].0;
        let info = &all.entries[i].1;
        let ghost e = es[i as int];
        let ghost before = es.take(i as int);
        let ghost after = es.take(i + 1);
        proof {
            assert(after.drop_last() =~= before);
            assert(after.last() == e);
            assert(es.take(i + 1) =~= before.push(e));
            lemma_count_state_bound(before, "RUNNING"@);
            lemma_count_state_bound(before, "FAILED"@);
            lemma_total_tasks_prefix(es, i + 1);
            lemma_total_running_bound(after);
        }
        let state = connector_state_of(info);
        proof {
            reveal_strlit("RUNNING");
            reveal_strlit("FAILED");
            assert("RUNNING"@.len() != "FAILED"@.len());
        }
        count_into(&mut dist, state.clone(), Ghost(before), Ghost(e));
        if str_eq(state.as_str(), "RUNNING") {
            running_connectors = running_connectors + 1;
        } else if str_eq(state.as_str(), "FAILED") {
            failed_connectors = failed_connectors + 1;
        }
        let mut more = entry_failures_of(name.as_str(), info, state.as_str());
        let ghost fs_before = failures@;
        let ghost more_v = more@;
        failures.append(&mut more);
        assert(failed_item_views(failures@) =~= failed_item_views(fs_before) + failed_item_views(more_v));
        let (tr, tt): (usize, usize) = match tasks_ref(info) {
            Some(ts) => {
                proof {
                    lemma_items_view_index(ts@);
                    lemma_count_running_bound(tasks_of(info@));
                }
                (running_count(ts), ts.len())
            },
            None => (0, 0),
        };
        task_total = task_total + tt;
        task_running = task_running + tr;
        let row = summary_for(name.as_str(), info, state);
        let ghost rows_before = rows@;
        rows.push(row);
        assert(summary_views(rows@) =~= summary_views(rows_before).push(row@));
        assert(summaries(after) =~= summaries(before).push(summary_of(e.0, e.1)));
        i = i + 1;
    }
    assert(es.take(all.entries.len() as int) =~= es);
    let ghost unsorted = rows@;
    let connectors = sorted_by_name(rows);
    proof {
        let f = |x: ConnectorSummary| x@;
        lemma_sort_by_name_map(unsorted, f);
        assert(summary_views(connectors@) =~= sort_by_name(unsorted).map_values(f));
        assert(unsorted.map_values(f) == summary_views(unsorted));
    }
    let version = match &cluster.version {
        Some(v) => v.clone(),
        None => to_owned_string("Unknown"),
    };
    let kafka_cluster_id = match &cluster.kafka_cluster_id {
        Some(v) => v.clone(),
        None => to_owned_string("Unknown"),
    };
    DashboardPage {
        active: "dashboard",
        version,
        kafka_cluster_id,
        plugins: plugins.len(),
        metrics: DashboardMetrics {
            total_connectors: all.entries.len(),
            running_connectors,
            failed_connectors,
            running_tasks: task_running,
            total_tasks: task_total,
        },
        status_distribution: dist,
        failures,
        connectors,
        flash,
    }
}

} // verus!
