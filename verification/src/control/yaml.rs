//! Rendering a connector as a Strimzi `KafkaConnector` YAML document.
use vstd::prelude::*;
use crate::json::{JsonObject, JsonValue, JsonView, entries_get, entries_remove, entry_keys, json_compact,
    lemma_get_after_remove_other};
use crate::text::{concat2, concat3, join, join_strings, push_char, push_str, seq_lt, str_lt,
    to_owned_string, views, chars_of};

verus! {

broadcast use vstd::string::group_string_axioms;

/// How a YAML double-quoted scalar writes one character.
pub open spec fn yaml_escape_char(c: char) -> Seq<char> {
    if c == '\\' {
        seq!['\\', '\\']
    } else if c == '"' {
        seq!['\\', '"']
    } else if c == '\n' {
        seq!['\\', 'n']
    } else if c == '\r' {
        seq!['\\', 'r']
    } else if c == '\t' {
        seq!['\\', 't']
    } else {
        seq![c]
    }
}

/// The body of a YAML double-quoted scalar.
pub open spec fn yaml_escape(s: Seq<char>) -> Seq<char>
    decreases s.len(),
{
    if s.len() == 0 {
        seq![]
    } else {
        yaml_escape(s.drop_last()) + yaml_escape_char(s.last())
    }
}

/// Where `x` goes among ascending strings: after every string not greater.
pub open spec fn string_position(sorted: Seq<Seq<char>>, x: Seq<char>) -> int
    decreases sorted.len(),
{
    if sorted.len() == 0 {
        0
    } else if seq_lt(x, sorted[0]) {
        0
    } else {
        1 + string_position(sorted.drop_first(), x)
    }
}

/// Strings in ascending order (`slice::sort`).
pub open spec fn sort_strings(s: Seq<Seq<char>>) -> Seq<Seq<char>>
    decreases s.len(),
{
    if s.len() == 0 {
        seq![]
    } else {
        let prev = sort_strings(s.drop_last());
        prev.insert(string_position(prev, s.last()), s.last())
    }
}

/// The connector class: `connector.class` when it is a string, else `unknown`.
pub open spec fn yaml_class(cfg: Seq<(Seq<char>, JsonView)>) -> Seq<char> {
    match entries_get(cfg, "connector.class"@) {
        Some(JsonView::String(s)) => s,
        _ => "unknown"@,
    }
}

/// `tasksMax`: `1` when absent, a string's text, otherwise the value's JSON text.
pub open spec fn yaml_tasks(cfg: Seq<(Seq<char>, JsonView)>) -> Seq<char> {
    match entries_get(cfg, "tasks.max"@) {
        None => "1"@,
        Some(JsonView::String(s)) => s,
        Some(v) => json_compact(v),
    }
}

/// The configuration without the two keys that become fields of the spec.
pub open spec fn yaml_rest(cfg: Seq<(Seq<char>, JsonView)>) -> Seq<(Seq<char>, JsonView)> {
    entries_remove(entries_remove(cfg, "connector.class"@), "tasks.max"@)
}

/// One line of the `config:` block.
pub open spec fn config_line(key: Seq<char>, v: JsonView) -> Seq<char> {
    match v {
        JsonView::String(t) => "    "@ + key + ": \""@ + yaml_escape(t) + "\""@,
        _ => "    "@ + key + ": "@ + json_compact(v),
    }
}

pub open spec fn config_lines(rest: Seq<(Seq<char>, JsonView)>, keys: Seq<Seq<char>>) -> Seq<Seq<char>>
    decreases keys.len(),
{
    if keys.len() == 0 {
        seq![]
    } else {
        let prev = config_lines(rest, keys.drop_last());
        match entries_get(rest, keys.last()) {
            Some(v) => prev.push(config_line(keys.last(), v)),
            None => prev,
        }
    }
}

/// The document's lines down to `  config:`.
pub open spec fn yaml_header(name: Seq<char>, cfg: Seq<(Seq<char>, JsonView)>, cluster: Seq<char>) -> Seq<Seq<char>> {
    seq![
        "apiVersion: kafka.strimzi.io/v1beta2"@,
        "kind: KafkaConnector"@,
        "metadata:"@,
        "  name: "@ + name,
        "  labels:"@,
        "    strimzi.io/cluster: "@ + cluster,
        "spec:"@,
        "  class: "@ + yaml_class(cfg),
        "  tasksMax: "@ + yaml_tasks(cfg),
        "  config:"@,
    ]
}

/// The lines of the `config:` block, in key order.
pub open spec fn yaml_config_block(cfg: Seq<(Seq<char>, JsonView)>) -> Seq<Seq<char>> {
    let rest = yaml_rest(cfg);
    config_lines(rest, sort_strings(entry_keys(rest)))
}

/// The `KafkaConnector` document.
pub open spec fn strimzi_yaml(name: Seq<char>, cfg: Seq<(Seq<char>, JsonView)>, cluster: Seq<char>) -> Seq<char> {
    join(yaml_header(name, cfg, cluster) + yaml_config_block(cfg), "\n"@)
}

/// Escapes a string for a YAML double-quoted scalar.
pub fn escape_yaml_double_quoted(text: &str) -> (r: String)
    ensures
        r@ == yaml_escape(text@),
{
    let cs = chars_of(text);
    let mut out = String::new();
    let mut i: usize = 0;
    assert(text@.take(0) =~= Seq::<char>::empty());
    while i < cs.len()
        invariant
            i <= cs.len(),
            cs@ == text@,
            out@ == yaml_escape(text@.take(i as int)),
        decreases cs.len() - i,
    {
        let c = cs[i];
        let ghost before = out@;
        if c == '\\' {
            push_str(&mut out, "\\\\");
        } else if c == '"' {
            push_str(&mut out, "\\\"");
        } else if c == '\n' {
            push_str(&mut out, "\\n");
        } else if c == '\r' {
            push_str(&mut out, "\\r");
        } else if c == '\t' {
            push_str(&mut out, "\\t");
        } else {
            push_char(&mut out, c);
        }
        proof {
            reveal_strlit("\\\\");
            reveal_strlit("\\\"");
            reveal_strlit("\\n");
            reveal_strlit("\\r");
            reveal_strlit("\\t");
        }
        assert(text@.take(i + 1).drop_last() =~= text@.take(i as int));
        assert(out@ =~= before + yaml_escape_char(c));
        i += 1;
    }
    assert(text@.take(cs.len() as int) =~= text@);
    out
}

/// Sorts strings ascending (a stable insertion sort).
pub fn sort_string_vec(v: Vec<String>) -> (r: Vec<String>)
    ensures
        views(r@) == sort_strings(views(v@)),
{
    let ghost vs = views(v@);
    let mut sorted: Vec<String> = Vec::new();
    let mut i: usize = 0;
    assert(vs.take(0) =~= Seq::<Seq<char>>::empty());
    assert(views(sorted@) =~= Seq::<Seq<char>>::empty());
    while i < v.len()
        invariant
            i <= v@.len(),
            vs == views(v@),
            views(sorted@) == sort_strings(vs.take(i as int)),
        decreases v.len() - i,
    {
        assert(vs.take(i + 1).drop_last() =~= vs.take(i as int));
        assert(vs.take(i + 1).last() == v@[i as int]@);
        let x = v[i].clone();
        let ghost s = views(sorted@);
        let mut j: usize = 0;
        assert(s.skip(0) =~= s);
        while j < sorted.len()
            invariant
                j <= sorted@.len(),
                s == views(sorted@),
                string_position(s, x@) == j + string_position(s.skip(j as int), x@),
            ensures
                j <= sorted@.len(),
                string_position(s, x@) == j + string_position(s.skip(j as int), x@),
                j < sorted@.len() ==> seq_lt(x@, s[j as int]),
            decreases sorted.len() - j,
        {
            let ghost rest = s.skip(j as int);
            assert(rest[0] == s[j as int]);
            if str_lt(x.as_str(), sorted[j].as_str()) {
                break;
            }
            assert(rest.drop_first() =~= s.skip(j + 1));
            j += 1;
        }
        proof {
            let rest = s.skip(j as int);
            if j < sorted@.len() {
                assert(rest[0] == s[j as int]);
            } else {
                assert(rest.len() == 0);
            }
        }
        let ghost xv = x@;
        sorted.insert(j, x);
        assert(views(sorted@) =~= s.insert(j as int, xv));
        i += 1;
    }
    assert(vs.take(vs.len() as int) =~= vs);
    sorted
}

/// Renders a Strimzi `KafkaConnector` YAML document from a Connect config map.
pub fn to_strimzi_yaml(connector_name: &str, config: &JsonObject, cluster_name: &str) -> (r: String)
    ensures
        r@ == strimzi_yaml(connector_name@, config@, cluster_name@),
{
    let mut rest = config.duplicate();
    let class_value = rest.remove("connector.class");
    let connector_class = match &class_value {
        Some(JsonValue::String(s)) => s.clone(),
        _ => to_owned_string("unknown"),
    };
    proof {
        reveal_strlit("connector.class");
        reveal_strlit("tasks.max");
        assert("connector.class"@.len() != "tasks.max"@.len());
        lemma_get_after_remove_other(config@, "connector.class"@, "tasks.max"@);
    }
    assert(connector_class@ == yaml_class(config@));
    let tasks_value = rest.remove("tasks.max");
    let tasks_max = match &tasks_value {
        None => to_owned_string("1"),
        Some(JsonValue::String(s)) => s.clone(),
        Some(other) => other.to_compact(),
    };
    let mut lines: Vec<String> = Vec::new();
    lines.push(to_owned_string("apiVersion: kafka.strimzi.io/v1beta2"));
    lines.push(to_owned_string("kind: KafkaConnector"));
    lines.push(to_owned_string("metadata:"));
    lines.push(concat2("  name: ", connector_name));
    lines.push(to_owned_string("  labels:"));
    lines.push(concat2("    strimzi.io/cluster: ", cluster_name));
    lines.push(to_owned_string("spec:"));
    lines.push(concat2("  class: ", connector_class.as_str()));
    lines.push(concat2("  tasksMax: ", tasks_max.as_str()));
    lines.push(to_owned_string("  config:"));
    let ghost header = views(lines@);
    assert(tasks_max@ == yaml_tasks(config@));
    assert(rest@ == yaml_rest(config@));
    let keys = sort_string_vec(rest.keys());
    let ghost ks = views(keys@);
    let mut i: usize = 0;
    assert(ks.take(0) =~= Seq::<Seq<char>>::empty());
    assert(views(lines@) =~= header + config_lines(rest@, ks.take(0)));
    while i < keys.len()
        invariant
            i <= keys@.len(),
            ks == views(keys@),
            views(lines@) == header + config_lines(rest@, ks.take(i as int)),
        decreases keys.len() - i,
    {
        assert(ks.take(i + 1).drop_last() =~= ks.take(i as int));
        assert(ks.take(i + 1).last() == keys@[i as int]@);
        let key = &keys[i];
        let ghost prev = views(lines@);
        match rest.get(key.as_str()) {
            Some(value) => {
                let line = match value {
                    JsonValue::String(text) => {
                        let esc = escape_yaml_double_quoted(text.as_str());
                        let mut l = concat3("    ", key.as_str(), ": \"");
                        push_str(&mut l, esc.as_str());
                        push_str(&mut l, "\"");
                        l
                    },
                    other => {
                        let t = other.to_compact();
                        concat3("    ", key.as_str(), ": ").concat(t.as_str())
                    },
                };
                lines.push(line);
                assert(views(lines@) =~= prev.push(config_line(key@, value@)));
            },
            None => {},
        }
        i += 1;
    }
    assert(ks.take(ks.len() as int) =~= ks);
    assert(header =~= seq![
        "apiVersion: kafka.strimzi.io/v1beta2"@,
        "kind: KafkaConnector"@,
        "metadata:"@,
        "  name: "@ + connector_name@,
        "  labels:"@,
        "    strimzi.io/cluster: "@ + cluster_name@,
        "spec:"@,
        "  class: "@ + yaml_class(config@),
        "  tasksMax: "@ + yaml_tasks(config@),
        "  config:"@,
    ]);
    join_strings(&lines, "\n")
}

} // verus!
