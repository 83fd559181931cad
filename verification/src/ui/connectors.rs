//! What the web UI reads of a connector's entry in Kafka Connect's
//! `/connectors?expand=status&expand=info` reply, and the order in which
//! connectors are listed.
use vstd::prelude::*;
use crate::json::{items_view, lemma_items_view_index, JsonValue, JsonView};
use crate::text::{seq_lt, str_eq, str_lt, to_owned_string};

verus! {

broadcast use vstd::string::group_string_axioms;

/// The entry's `status`; `null` when absent.
pub open spec fn status_view(info: JsonView) -> JsonView {
    match info.member("status"@) {
        Some(s) => s,
        None => JsonView::Null,
    }
}

/// The JSON pointer `/a/b` on a value whose members are named `a` and `b`.
pub open spec fn member2(v: JsonView, a: Seq<char>, b: Seq<char>) -> Option<JsonView> {
    match v.member(a) {
        Some(x) => x.member(b),
        None => None,
    }
}

/// The string a value holds, when it is one.
pub open spec fn str_of(v: Option<JsonView>) -> Option<Seq<char>> {
    match v {
        Some(JsonView::String(s)) => Some(s),
        _ => None,
    }
}

/// The string a value holds, or `default`.
pub open spec fn str_or(v: Option<JsonView>, default: Seq<char>) -> Seq<char> {
    match str_of(v) {
        Some(s) => s,
        None => default,
    }
}

/// `status.connector.state`, `UNKNOWN` when it is not a string.
pub open spec fn connector_state(info: JsonView) -> Seq<char> {
    str_or(member2(status_view(info), "connector"@, "state"@), "UNKNOWN"@)
}

/// `status.tasks`, empty when it is not an array.
pub open spec fn tasks_of(info: JsonView) -> Seq<JsonView> {
    match status_view(info).member("tasks"@) {
        Some(JsonView::Array(ts)) => ts,
        _ => seq![],
    }
}

/// Whether a task's `state` is the string `state`.
pub open spec fn task_in_state(task: JsonView, state: Seq<char>) -> bool {
    str_of(task.member("state"@)) == Some(state)
}

/// How many tasks are `RUNNING`.
pub open spec fn count_running(ts: Seq<JsonView>) -> nat
    decreases ts.len(),
{
    if ts.len() == 0 {
        0
    } else {
        count_running(ts.drop_last()) + if task_in_state(ts.last(), "RUNNING"@) {
            1nat
        } else {
            0nat
        }
    }
}

pub proof fn lemma_count_running_bound(ts: Seq<JsonView>)
    ensures
        count_running(ts) <= ts.len(),
    decreases ts.len(),
{
    if ts.len() > 0 {
        lemma_count_running_bound(ts.drop_last());
    }
}

/// The entry's connector state.
pub fn connector_state_of(info: &JsonValue) -> (r: String)
    ensures
        r@ == connector_state(info@),
{
    let found = match info.member("status") {
        Some(status) => match status.member("connector") {
            Some(c) => match c.member("state") {
                Some(v) => v.as_str(),
                None => None,
            },
            None => None,
        },
        None => None,
    };
    match found {
        Some(s) => s.clone(),
        None => to_owned_string("UNKNOWN"),
    }
}

/// The entry's tasks, `None` standing for none.
pub fn tasks_ref(info: &JsonValue) -> (r: Option<&Vec<JsonValue>>)
    ensures
        match r {
            Some(ts) => items_view(ts@) == tasks_of(info@),
            None => tasks_of(info@) == Seq::<JsonView>::empty(),
        },
{
    match info.member("status") {
        Some(status) => match status.member("tasks") {
            Some(t) => t.as_array(),
            None => None,
        },
        None => None,
    }
}

/// Whether a task's `state` is `state`.
pub fn task_state_is(task: &JsonValue, state: &str) -> (r: bool)
    ensures
        r == task_in_state(task@, state@),
{
    match task.member("state") {
        Some(v) => match v.as_str() {
            Some(s) => str_eq(s.as_str(), state),
            None => false,
        },
        None => false,
    }
}

/// How many of the tasks are `RUNNING`.
pub fn running_count(tasks: &Vec<JsonValue>) -> (r: usize)
    ensures
        r == count_running(items_view(tasks@)),
{
    let ghost ts = items_view(tasks@);
    proof {
        lemma_items_view_index(tasks@);
    }
    let mut n: usize = 0;
    let mut i: usize = 0;
    while i < tasks.len()
        invariant
            i <= tasks.len(),
            ts == items_view(tasks@),
            ts.len() == tasks.len(),
            forall|k: int| 0 <= k < tasks.len() ==> #[trigger] ts[k] == tasks@[k]@,
            n == count_running(ts.take(i as int)),
            n <= i,
        decreases tasks.len() - i,
    {
        assert(ts.take(i + 1).drop_last() =~= ts.take(i as int));
        assert(ts.take(i + 1).last() == tasks@[i as int]@);
        if task_state_is(&tasks[i], "RUNNING") {
            n = n + 1;
        }
        i = i + 1;
    }
    assert(ts.take(tasks.len() as int) =~= ts);
    n
}

/// A row listed by connector name.
pub trait Named {
    spec fn name_view(&self) -> Seq<char>;
}

/// A row whose name can be read.
pub trait NameRead: Named {
    fn name_str(&self) -> (r: &str)
        ensures
            r@ == self.name_view(),
    ;
}

/// Where `x` goes among rows already in name order: before the first row
/// whose name is greater.
pub open spec fn name_position<T: Named>(sorted: Seq<T>, x: T) -> int
    decreases sorted.len(),
{
    if sorted.len() == 0 {
        0
    } else if seq_lt(x.name_view(), sorted[0].name_view()) {
        0
    } else {
        1 + name_position(sorted.drop_first(), x)
    }
}

/// Rows in name order; rows of the same name keep their order (a stable sort).
pub open spec fn sort_by_name<T: Named>(rows: Seq<T>) -> Seq<T>
    decreases rows.len(),
{
    if rows.len() == 0 {
        seq![]
    } else {
        let prev = sort_by_name(rows.drop_last());
        prev.insert(name_position(prev, rows.last()), rows.last())
    }
}

pub proof fn lemma_name_position_bound<T: Named>(sorted: Seq<T>, x: T)
    ensures
        0 <= name_position(sorted, x) <= sorted.len(),
    decreases sorted.len(),
{
    if sorted.len() > 0 {
        lemma_name_position_bound(sorted.drop_first(), x);
    }
}

proof fn lemma_name_position_map<T: Named, U: Named>(sorted: Seq<T>, x: T, f: spec_fn(T) -> U)
    requires
        forall|y: T| #[trigger] f(y).name_view() == y.name_view(),
    ensures
        name_position(sorted.map_values(f), f(x)) == name_position(sorted, x),
    decreases sorted.len(),
{
    if sorted.len() > 0 {
        assert(sorted.map_values(f).drop_first() =~= sorted.drop_first().map_values(f));
        assert(sorted.map_values(f)[0] == f(sorted[0]));
        lemma_name_position_map(sorted.drop_first(), x, f);
    }
}

/// Sorting rows by name and then taking a name-preserving view of each is
/// sorting the views.
pub proof fn lemma_sort_by_name_map<T: Named, U: Named>(rows: Seq<T>, f: spec_fn(T) -> U)
    requires
        forall|y: T| #[trigger] f(y).name_view() == y.name_view(),
    ensures
        sort_by_name(rows.map_values(f)) == sort_by_name(rows).map_values(f),
    decreases rows.len(),
{
    if rows.len() > 0 {
        let prev = sort_by_name(rows.drop_last());
        assert(rows.map_values(f).drop_last() =~= rows.drop_last().map_values(f));
        assert(rows.map_values(f).last() == f(rows.last()));
        lemma_sort_by_name_map(rows.drop_last(), f);
        lemma_name_position_map(prev, rows.last(), f);
        lemma_name_position_bound(prev, rows.last());
        let p = name_position(prev, rows.last());
        assert(prev.insert(p, rows.last()).map_values(f) =~= prev.map_values(f).insert(p, f(rows.last())));
    }
}

/// Inserts `x` at its place among `sorted`.
fn insert_by_name<T: NameRead>(sorted: &mut Vec<T>, x: T)
    ensures
        final(sorted)@ == old(sorted)@.insert(name_position(old(sorted)@, x), x),
{
    let ghost s = sorted@;
    let mut i: usize = 0;
    assert(s.skip(0) =~= s);
    while i < sorted.len()
        invariant
            i <= sorted@.len(),
            s == sorted@,
            name_position(s, x) == i + name_position(s.skip(i as int), x),
        ensures
            i <= sorted@.len(),
            s == sorted@,
            name_position(s, x) == i + name_position(s.skip(i as int), x),
            i < sorted@.len() ==> seq_lt(x.name_view(), s[i as int].name_view()),
        decreases sorted.len() - i,
    {
        let ghost rest = s.skip(i as int);
        assert(rest[0] == sorted@[i as int]);
        if str_lt(x.name_str(), sorted[i].name_str()) {
            break;
        }
        assert(rest.drop_first() =~= s.skip(i + 1));
        i += 1;
    }
    proof {
        let rest = s.skip(i as int);
        if i < sorted.len() {
            assert(rest[0] == s[i as int]);
        } else {
            assert(rest.len() == 0);
        }
    }
    sorted.insert(i, x);
}

/// The rows in name order, rows of the same name in their given order.
pub fn sorted_by_name<T: NameRead>(rows: Vec<T>) -> (r: Vec<T>)
    ensures
        r@ == sort_by_name(rows@),
{
    let ghost all = rows@;
    let mut rest = rows;
    let mut out: Vec<T> = Vec::new();
    assert(all.take(0) =~= Seq::<T>::empty());
    while rest.len() > 0
        invariant
            rest@.len() <= all.len(),
            rest@ == all.skip(all.len() - rest@.len()),
            out@ == sort_by_name(all.take(all.len() - rest@.len())),
        decreases rest.len(),
    {
        let ghost done = all.len() - rest@.len();
        let x = rest.remove(0);
        proof {
            assert(all.take(done + 1).drop_last() =~= all.take(done));
            assert(all.take(done + 1).last() == x);
            assert(rest@ =~= all.skip(done + 1));
        }
        insert_by_name(&mut out, x);
    }
    assert(all.take(all.len() as int) =~= all);
    out
}

} // verus!
