//! Reading JSON, YAML and TOML text into the library's JSON model.
//!
//! The parsers are those of `serde_json`, `serde_yaml` and `toml`; what they
//! produce is walked node by node into a [`JsonValue`].
use vstd::prelude::*;
use crate::json::{JsonNumber, JsonObject, JsonValue, JsonView, NumberView, members_view, items_view,
    keys_sorted, objects_sorted, lemma_members_view_index, lemma_items_view_index};

verus! {

#[verifier::external_type_specification]
#[verifier::external_body]
pub struct ExSerdeJsonValue(serde_json::Value);

#[verifier::external_type_specification]
#[verifier::external_body]
pub struct ExSerdeJsonNumber(serde_json::Number);


/// The tree that a `serde_json::Value` holds.
pub uninterp spec fn serde_tree(v: serde_json::Value) -> JsonView;

/// What a `serde_json::Number` holds: its `Display` text and its `as_i64` and
/// `as_u64` readings.
pub uninterp spec fn serde_number(n: serde_json::Number) -> NumberView;

/// Outcome of `serde_json::from_str::<Value>` on a text: the tree, or the
/// error's message.
pub uninterp spec fn json_text_parse(text: Seq<char>) -> Result<JsonView, Seq<char>>;

/// Outcome of `serde_json::from_str::<Map<String, Value>>` on a text: the
/// object's members, or the error's message.
pub uninterp spec fn json_object_text_parse(text: Seq<char>) -> Result<Seq<(Seq<char>, JsonView)>, Seq<char>>;

/// Outcome of `serde_json::from_slice::<Value>` on bytes: the tree, or the
/// error's message.
pub uninterp spec fn json_bytes_parse(bytes: Seq<u8>) -> Result<JsonView, Seq<char>>;

/// Outcome of reading YAML text as JSON: `Err((true, m))` when
/// `serde_yaml::from_str::<serde_yaml::Value>` refuses it with message `m`;
/// otherwise what `serde_json::to_value` makes of the YAML value: the tree,
/// or `Err((false, m))` with the error's message.
pub uninterp spec fn yaml_text_as_json(text: Seq<char>) -> Result<JsonView, (bool, Seq<char>)>;

/// Outcome of `toml::from_str::<serde_json::Value>` on a text: the tree, or
/// the error's message.
pub uninterp spec fn toml_text_parse(text: Seq<char>) -> Result<JsonView, Seq<char>>;

/// One level of a `serde_json::Value`.
pub enum SerdeNode {
    Null,
    Bool(bool),
    Number(serde_json::Number),
    String(String),
    Array(Vec<serde_json::Value>),
    Object(Vec<(String, serde_json::Value)>),
}

pub open spec fn serde_trees(vs: Seq<serde_json::Value>) -> Seq<JsonView> {
    vs.map_values(|v: serde_json::Value| serde_tree(v))
}

pub open spec fn serde_members(es: Seq<(String, serde_json::Value)>) -> Seq<(Seq<char>, JsonView)> {
    es.map_values(|e: (String, serde_json::Value)| (e.0@, serde_tree(e.1)))
}

/// Takes a `serde_json::Value` apart one level: the variant and its fields,
/// an object's members in the map's iteration order. `serde_json::Map` is a
/// `BTreeMap<String, Value>` here (the `preserve_order` feature is off), so
/// its members come out with each key once, ascending; `String`'s byte order
/// is the order of the characters' code points.
#[verifier::external_body]
fn serde_node(v: serde_json::Value) -> (r: SerdeNode)
    ensures
        match r {
            SerdeNode::Null => serde_tree(v) == JsonView::Null,
            SerdeNode::Bool(b) => serde_tree(v) == JsonView::Bool(b),
            SerdeNode::Number(n) => serde_tree(v) == JsonView::Number(serde_number(n)),
            SerdeNode::String(s) => serde_tree(v) == JsonView::String(s@),
            SerdeNode::Array(items) => serde_tree(v) == JsonView::Array(serde_trees(items@)),
            SerdeNode::Object(es) => serde_tree(v) == JsonView::Object(serde_members(es@))
                && keys_sorted(serde_members(es@)),
        },
{
    match v {
        serde_json::Value::Null => SerdeNode::Null,
        serde_json::Value::Bool(b) => SerdeNode::Bool(b),
        serde_json::Value::Number(n) => SerdeNode::Number(n),
        serde_json::Value::String(s) => SerdeNode::String(s),
        serde_json::Value::Array(items) => SerdeNode::Array(items),
        serde_json::Value::Object(m) => SerdeNode::Object(m.into_iter().collect()),
    }
}

/// `Number`'s `Display` text.
#[verifier::external_body]
fn number_text(n: &serde_json::Number) -> (r: String)
    ensures
        r@ == serde_number(*n).text,
{
    n.to_string()
}

/// `Number::as_i64`.
#[verifier::external_body]
fn number_as_i64(n: &serde_json::Number) -> (r: Option<i64>)
    ensures
        r == serde_number(*n).int,
{
    n.as_i64()
}

/// `Number::as_u64`.
#[verifier::external_body]
fn number_as_u64(n: &serde_json::Number) -> (r: Option<u64>)
    ensures
        r == serde_number(*n).uint,
{
    n.as_u64()
}

/// `serde_json::from_str::<Value>`, the error as its message.
#[verifier::external_body]
fn json_from_str(text: &str) -> (r: Result<serde_json::Value, String>)
    ensures
        match r {
            Ok(v) => json_text_parse(text@) == Ok::<JsonView, Seq<char>>(serde_tree(v)),
            Err(e) => json_text_parse(text@) == Err::<JsonView, Seq<char>>(e@),
        },
{
    serde_json::from_str::<serde_json::Value>(text).map_err(|e| e.to_string())
}

/// `serde_yaml::from_str::<serde_yaml::Value>`, then `serde_json::to_value`
/// of the YAML value; an error says which step failed (`true` for the YAML
/// parse) and its message.
#[verifier::external_body]
fn yaml_json_from_str(text: &str) -> (r: Result<serde_json::Value, (bool, String)>)
    ensures
        match r {
            Ok(v) => yaml_text_as_json(text@) == Ok::<JsonView, (bool, Seq<char>)>(serde_tree(v)),
            Err((syntax, e)) => yaml_text_as_json(text@) == Err::<JsonView, (bool, Seq<char>)>((syntax, e@)),
        },
{
    let yaml = serde_yaml::from_str::<serde_yaml::Value>(text).map_err(|e| (true, e.to_string()))?;
    serde_json::to_value(yaml).map_err(|e| (false, e.to_string()))
}

/// `toml::from_str::<serde_json::Value>`, the error as its message.
#[verifier::external_body]
fn toml_from_str(text: &str) -> (r: Result<serde_json::Value, String>)
    ensures
        match r {
            Ok(v) => toml_text_parse(text@) == Ok::<JsonView, Seq<char>>(serde_tree(v)),
            Err(e) => toml_text_parse(text@) == Err::<JsonView, Seq<char>>(e@),
        },
{
    toml::from_str::<serde_json::Value>(text).map_err(|e| e.to_string())
}

/// `serde_json::from_slice::<Value>`, the error as its message.
#[verifier::external_body]
fn json_from_slice(bytes: &[u8]) -> (r: Result<serde_json::Value, String>)
    ensures
        match r {
            Ok(v) => json_bytes_parse(bytes@) == Ok::<JsonView, Seq<char>>(serde_tree(v)),
            Err(e) => json_bytes_parse(bytes@) == Err::<JsonView, Seq<char>>(e@),
        },
{
    serde_json::from_slice::<serde_json::Value>(bytes).map_err(|e| e.to_string())
}

/// `serde_json::from_str::<Map<String, Value>>`, the object handed back as a
/// `Value::Object` and the error as its message.
#[verifier::external_body]
fn json_object_from_str(text: &str) -> (r: Result<serde_json::Value, String>)
    ensures
        match r {
            Ok(v) => json_object_text_parse(text@) matches Ok(es) && serde_tree(v) == JsonView::Object(es),
            Err(e) => json_object_text_parse(text@) == Err::<Seq<(Seq<char>, JsonView)>, Seq<char>>(e@),
        },
{
    serde_json::from_str::<serde_json::Map<String, serde_json::Value>>(text)
        .map(serde_json::Value::Object)
        .map_err(|e| e.to_string())
}

/// The library's copy of the tree a `serde_json::Value` holds.
pub fn convert(v: serde_json::Value) -> (r: JsonValue)
    ensures
        r@ == serde_tree(v),
        objects_sorted(r@),
    decreases serde_tree(v),
{
    let ghost tree = serde_tree(v);
    match serde_node(v) {
        SerdeNode::Null => JsonValue::Null,
        SerdeNode::Bool(b) => JsonValue::Bool(b),
        SerdeNode::Number(n) => {
            let num = JsonNumber { text: number_text(&n), int: number_as_i64(&n), uint: number_as_u64(&n) };
            assert(num@ == serde_number(n));
            JsonValue::Number(num)
        },
        SerdeNode::String(s) => JsonValue::String(s),
        SerdeNode::Array(items) => {
            let ghost all = serde_trees(items@);
            let mut rest = items;
            let mut out: Vec<JsonValue> = Vec::new();
            let ghost n = all.len();
            while rest.len() > 0
                invariant
                    tree == JsonView::Array(all),
                    tree == serde_tree(v),
                    all.len() == n,
                    out.len() + rest.len() == n,
                    serde_trees(rest@) == all.subrange(out.len() as int, n as int),
                    items_view(out@) == all.take(out.len() as int),
                    forall|j: int| 0 <= j < out.len() ==> objects_sorted(#[trigger] all[j]),
                decreases rest.len(),
            {
                let ghost k = out.len() as int;
                let ghost before = rest@;
                assert(serde_trees(before)[0] == all[k]);
                let item = rest.remove(0);
                assert(rest@ =~= before.subrange(1, before.len() as int));
                assert(serde_tree(item) == all[k]);
                assert(decreases_to!(all => all[k]));
                assert(tree->Array_0 == all);
                assert(decreases_to!(tree => tree->Array_0));
                assert(decreases_to!(tree => all[k]));
                let c = convert(item);
                proof {
                    lemma_items_view_index(out@);
                    lemma_items_view_index(out@.push(c));
                }
                out.push(c);
                assert(items_view(out@) =~= all.take(out.len() as int));
                assert forall|j: int| 0 <= j < rest@.len() implies serde_trees(rest@)[j] == all.subrange(
                    out.len() as int,
                    n as int,
                )[j] by {
                    assert(serde_trees(before)[j + 1] == all.subrange(k, n as int)[j + 1]);
                }
                assert(serde_trees(rest@) =~= all.subrange(out.len() as int, n as int));
            }
            assert(all.take(n as int) =~= all);
            JsonValue::Array(out)
        },
        SerdeNode::Object(es) => {
            let ghost all = serde_members(es@);
            let mut rest = es;
            let mut out: Vec<(String, JsonValue)> = Vec::new();
            let ghost n = all.len();
            while rest.len() > 0
                invariant
                    tree == JsonView::Object(all),
                    tree == serde_tree(v),
                    all.len() == n,
                    out.len() + rest.len() == n,
                    serde_members(rest@) == all.subrange(out.len() as int, n as int),
                    members_view(out@) == all.take(out.len() as int),
                    keys_sorted(all),
                    forall|j: int| 0 <= j < out.len() ==> objects_sorted(#[trigger] all[j].1),
                decreases rest.len(),
            {
                let ghost k = out.len() as int;
                let ghost before = rest@;
                assert(serde_members(before)[0] == all[k]);
                let (key, item) = rest.remove(0);
                assert(rest@ =~= before.subrange(1, before.len() as int));
                assert(serde_tree(item) == all[k].1);
                assert(decreases_to!(all[k] => all[k].1));
                assert(decreases_to!(all => all[k]));
                assert(tree->Object_0 == all);
                assert(decreases_to!(tree => tree->Object_0));
                assert(decreases_to!(tree => all[k].1));
                let c = convert(item);
                proof {
                    lemma_members_view_index(out@);
                    lemma_members_view_index(out@.push((key, c)));
                }
                out.push((key, c));
                assert(members_view(out@) =~= all.take(out.len() as int));
                assert forall|j: int| 0 <= j < rest@.len() implies serde_members(rest@)[j] == all.subrange(
                    out.len() as int,
                    n as int,
                )[j] by {
                    assert(serde_members(before)[j + 1] == all.subrange(k, n as int)[j + 1]);
                }
                assert(serde_members(rest@) =~= all.subrange(out.len() as int, n as int));
            }
            assert(all.take(n as int) =~= all);
            JsonValue::Object(JsonObject { entries: out })
        },
    }
}

/// Parses JSON text.
pub fn parse_json_text(text: &str) -> (r: Result<JsonValue, String>)
    ensures
        match json_text_parse(text@) {
            Ok(t) => r matches Ok(v) && v@ == t && objects_sorted(t),
            Err(e) => r matches Err(m) && m@ == e,
        },
{
    match json_from_str(text) {
        Ok(v) => Ok(convert(v)),
        Err(e) => Err(e),
    }
}

/// Parses JSON bytes.
pub fn parse_json_bytes(bytes: &[u8]) -> (r: Result<JsonValue, String>)
    ensures
        match json_bytes_parse(bytes@) {
            Ok(t) => r matches Ok(v) && v@ == t && objects_sorted(t),
            Err(e) => r matches Err(m) && m@ == e,
        },
{
    match json_from_slice(bytes) {
        Ok(v) => Ok(convert(v)),
        Err(e) => Err(e),
    }
}

/// Parses JSON text that must hold an object.
pub fn parse_json_object_text(text: &str) -> (r: Result<JsonObject, String>)
    ensures
        match json_object_text_parse(text@) {
            Ok(es) => r matches Ok(o) && o@ == es && objects_sorted(JsonView::Object(es)),
            Err(e) => r matches Err(m) && m@ == e,
        },
{
    match json_object_from_str(text) {
        Ok(v) => match convert(v) {
            JsonValue::Object(o) => Ok(o),
            _ => {
                proof {
                    assert(false);
                }
                Err(String::new())
            },
        },
        Err(e) => Err(e),
    }
}

/// Why YAML text could not be read as JSON.
#[derive(Debug)]
pub enum YamlFailure {
    /// The YAML parser refused the text.
    Syntax(String),
    /// The YAML value has no JSON form.
    NotJson(String),
}

/// Parses YAML text and takes its JSON form.
pub fn parse_yaml_text(text: &str) -> (r: Result<JsonValue, YamlFailure>)
    ensures
        match yaml_text_as_json(text@) {
            Err((true, e)) => r matches Err(YamlFailure::Syntax(m)) && m@ == e,
            Err((false, e)) => r matches Err(YamlFailure::NotJson(m)) && m@ == e,
            Ok(t) => r matches Ok(v) && v@ == t && objects_sorted(t),
        },
{
    match yaml_json_from_str(text) {
        Err((true, e)) => Err(YamlFailure::Syntax(e)),
        Err((false, e)) => Err(YamlFailure::NotJson(e)),
        Ok(v) => Ok(convert(v)),
    }
}

/// Parses TOML text into the JSON model.
pub fn parse_toml_text(text: &str) -> (r: Result<JsonValue, String>)
    ensures
        match toml_text_parse(text@) {
            Ok(t) => r matches Ok(v) && v@ == t && objects_sorted(t),
            Err(e) => r matches Err(m) && m@ == e,
        },
{
    match toml_from_str(text) {
        Ok(v) => Ok(convert(v)),
        Err(e) => Err(e),
    }
}

} // verus!
