//! The library's model of a JSON document: the values that connector
//! configurations, Connect REST replies and Debezium notifications carry.
use vstd::prelude::*;
use crate::text::{chars_of, push_char, push_str, seq_lt, str_lt, to_owned_string, views};

verus! {

/// A JSON number: the text its producer printed for it, and its readings as
/// `i64` and as `u64` where it has them.
#[derive(Debug)]
pub struct JsonNumber {
    pub text: String,
    pub int: Option<i64>,
    pub uint: Option<u64>,
}

/// A JSON value.
#[derive(Debug)]
pub enum JsonValue {
    Null,
    Bool(bool),
    Number(JsonNumber),
    String(String),
    Array(Vec<JsonValue>),
    Object(JsonObject),
}

/// A JSON object: its members in iteration order. Parsed objects have their
/// keys in ascending order, each once, as a `BTreeMap` has them, and `insert`
/// and `remove` keep that order.
#[derive(Debug)]
pub struct JsonObject {
    pub entries: Vec<(String, JsonValue)>,
}

// ---------------------------------------------------------------------------
// Mathematical model
// ---------------------------------------------------------------------------

/// The abstract content of a JSON number.
pub struct NumberView {
    pub text: Seq<char>,
    pub int: Option<i64>,
    pub uint: Option<u64>,
}

/// The abstract content of a JSON value.
pub enum JsonView {
    Null,
    Bool(bool),
    Number(NumberView),
    String(Seq<char>),
    Array(Seq<JsonView>),
    Object(Seq<(Seq<char>, JsonView)>),
}

impl View for JsonNumber {
    type V = NumberView;

    open spec fn view(&self) -> NumberView {
        NumberView { text: self.text@, int: self.int, uint: self.uint }
    }
}

impl View for JsonValue {
    type V = JsonView;

    open spec fn view(&self) -> JsonView {
        value_view(*self)
    }
}

impl View for JsonObject {
    type V = Seq<(Seq<char>, JsonView)>;

    open spec fn view(&self) -> Seq<(Seq<char>, JsonView)> {
        members_view(self.entries@)
    }
}

pub open spec fn value_view(v: JsonValue) -> JsonView
    decreases v, 0nat,
{
    match v {
        JsonValue::Null => JsonView::Null,
        JsonValue::Bool(b) => JsonView::Bool(b),
        JsonValue::Number(n) => JsonView::Number(
            NumberView { text: n.text@, int: n.int, uint: n.uint },
        ),
        JsonValue::String(s) => JsonView::String(s@),
        JsonValue::Array(items) => JsonView::Array(items_view(items@)),
        JsonValue::Object(o) => JsonView::Object(members_view(o.entries@)),
    }
}

pub open spec fn items_view(items: Seq<JsonValue>) -> Seq<JsonView>
    decreases items, 1nat,
{
    if items.len() == 0 {
        seq![]
    } else {
        seq![value_view(items[0])] + items_view(items.subrange(1, items.len() as int))
    }
}

pub open spec fn members_view(es: Seq<(String, JsonValue)>) -> Seq<(Seq<char>, JsonView)>
    decreases es, 1nat,
{
    if es.len() == 0 {
        seq![]
    } else {
        seq![(es[0].0@, value_view(es[0].1))] + members_view(es.subrange(1, es.len() as int))
    }
}

// ---------------------------------------------------------------------------
// Specifications over the model
// ---------------------------------------------------------------------------

/// Position of the first member named `key`, or the number of members.
pub open spec fn index_of_key(es: Seq<(Seq<char>, JsonView)>, key: Seq<char>) -> int
    decreases es.len(),
{
    if es.len() == 0 {
        0
    } else if es[0].0 == key {
        0
    } else {
        1 + index_of_key(es.drop_first(), key)
    }
}

/// Position at which a new member named `key` is placed: before the first
/// member whose name is greater.
pub open spec fn insert_position(es: Seq<(Seq<char>, JsonView)>, key: Seq<char>) -> int
    decreases es.len(),
{
    if es.len() == 0 {
        0
    } else if seq_lt(key, es[0].0) {
        0
    } else {
        1 + insert_position(es.drop_first(), key)
    }
}

/// `Map::get`.
pub open spec fn entries_get(es: Seq<(Seq<char>, JsonView)>, key: Seq<char>) -> Option<JsonView> {
    let i = index_of_key(es, key);
    if i < es.len() {
        Some(es[i].1)
    } else {
        None
    }
}

/// `Map::insert`: member `key` replaced in place when present, otherwise
/// inserted in key order.
pub open spec fn entries_insert(
    es: Seq<(Seq<char>, JsonView)>,
    key: Seq<char>,
    value: JsonView,
) -> Seq<(Seq<char>, JsonView)> {
    let i = index_of_key(es, key);
    if i < es.len() {
        es.update(i, (key, value))
    } else {
        es.insert(insert_position(es, key), (key, value))
    }
}

/// `Map::remove`: member `key` removed when present.
pub open spec fn entries_remove(es: Seq<(Seq<char>, JsonView)>, key: Seq<char>) -> Seq<
    (Seq<char>, JsonView),
> {
    let i = index_of_key(es, key);
    if i < es.len() {
        es.remove(i)
    } else {
        es
    }
}

pub open spec fn has_key(es: Seq<(Seq<char>, JsonView)>, key: Seq<char>) -> bool {
    index_of_key(es, key) < es.len()
}

/// The names of the members, in order.
pub open spec fn entry_keys(es: Seq<(Seq<char>, JsonView)>) -> Seq<Seq<char>> {
    es.map_values(|e: (Seq<char>, JsonView)| e.0)
}

/// Keys strictly ascending, as in a `BTreeMap`.
pub open spec fn keys_sorted(es: Seq<(Seq<char>, JsonView)>) -> bool {
    forall|i: int, j: int| 0 <= i < j < es.len() ==> seq_lt(#[trigger] es[i].0, #[trigger] es[j].0)
}

/// Every object in the tree, at any depth, has its keys strictly ascending.
pub open spec fn objects_sorted(v: JsonView) -> bool
    decreases v,
{
    match v {
        JsonView::Array(items) => forall|i: int| 0 <= i < items.len() ==> objects_sorted(#[trigger] items[i]),
        JsonView::Object(es) => keys_sorted(es) && forall|i: int|
            0 <= i < es.len() ==> objects_sorted(#[trigger] es[i].1),
        _ => true,
    }
}

impl JsonView {
    pub open spec fn as_str(self) -> Option<Seq<char>> {
        match self {
            JsonView::String(s) => Some(s),
            _ => None,
        }
    }

    /// `Value::as_i64`.
    pub open spec fn as_i64(self) -> Option<i64> {
        match self {
            JsonView::Number(n) => n.int,
            _ => None,
        }
    }

    /// `Value::as_u64`.
    pub open spec fn as_u64(self) -> Option<u64> {
        match self {
            JsonView::Number(n) => n.uint,
            _ => None,
        }
    }

    /// `Value::get` with a member name (objects only).
    pub open spec fn member(self, key: Seq<char>) -> Option<JsonView> {
        match self {
            JsonView::Object(es) => entries_get(es, key),
            _ => None,
        }
    }
}

pub open spec fn hex_digit(d: u32) -> char {
    if d < 10 {
        (d + 48) as char
    } else {
        (d + 87) as char
    }
}

/// How a JSON string literal writes one character.
pub open spec fn json_escape_char(c: char) -> Seq<char> {
    let u = c as u32;
    if c == '"' {
        seq!['\\', '"']
    } else if c == '\\' {
        seq!['\\', '\\']
    } else if u == 0x08 {
        seq!['\\', 'b']
    } else if u == 0x09 {
        seq!['\\', 't']
    } else if u == 0x0a {
        seq!['\\', 'n']
    } else if u == 0x0c {
        seq!['\\', 'f']
    } else if u == 0x0d {
        seq!['\\', 'r']
    } else if u < 0x20 {
        seq!['\\', 'u', '0', '0', hex_digit(u / 16), hex_digit(u % 16)]
    } else {
        seq![c]
    }
}

pub open spec fn json_escape(s: Seq<char>) -> Seq<char>
    decreases s.len(),
{
    if s.len() == 0 {
        seq![]
    } else {
        json_escape(s.drop_last()) + json_escape_char(s.last())
    }
}

/// A JSON string literal.
pub open spec fn json_quote(s: Seq<char>) -> Seq<char> {
    seq!['"'] + json_escape(s) + seq!['"']
}

/// Compact JSON text of a value, as `Value`'s `Display` writes it.
pub open spec fn json_compact(v: JsonView) -> Seq<char>
    decreases v, 0nat,
{
    match v {
        JsonView::Null => seq!['n', 'u', 'l', 'l'],
        JsonView::Bool(b) => if b {
            seq!['t', 'r', 'u', 'e']
        } else {
            seq!['f', 'a', 'l', 's', 'e']
        },
        JsonView::Number(n) => n.text,
        JsonView::String(s) => json_quote(s),
        JsonView::Array(items) => seq!['['] + compact_items(items) + seq![']'],
        JsonView::Object(es) => seq!['{'] + compact_members(es) + seq!['}'],
    }
}

/// Comma-separated compact texts of array items.
pub open spec fn compact_items(items: Seq<JsonView>) -> Seq<char>
    decreases items, 1nat,
{
    if items.len() == 0 {
        seq![]
    } else if items.len() == 1 {
        json_compact(items[0])
    } else {
        json_compact(items[0]) + seq![','] + compact_items(items.subrange(1, items.len() as int))
    }
}

/// Comma-separated `"name":value` texts of object members.
pub open spec fn compact_members(es: Seq<(Seq<char>, JsonView)>) -> Seq<char>
    decreases es, 1nat,
{
    if es.len() == 0 {
        seq![]
    } else if es.len() == 1 {
        json_quote(es[0].0) + seq![':'] + json_compact(es[0].1)
    } else {
        json_quote(es[0].0) + seq![':'] + json_compact(es[0].1) + seq![','] + compact_members(
            es.subrange(1, es.len() as int),
        )
    }
}

// ---------------------------------------------------------------------------
// Operations
// ---------------------------------------------------------------------------

impl JsonNumber {
    pub fn duplicate(&self) -> (r: JsonNumber)
        ensures
            r@ == self@,
    {
        JsonNumber { text: self.text.clone(), int: self.int, uint: self.uint }
    }
}

impl JsonValue {
    /// A copy of this value.
    pub fn duplicate(&self) -> (r: JsonValue)
        ensures
            r@ == self@,
        decreases self, 0nat,
    {
        match self {
            JsonValue::Null => JsonValue::Null,
            JsonValue::Bool(b) => JsonValue::Bool(*b),
            JsonValue::Number(n) => JsonValue::Number(n.duplicate()),
            JsonValue::String(s) => JsonValue::String(s.clone()),
            JsonValue::Array(items) => {
                let copy = duplicate_items(items);
                JsonValue::Array(copy)
            },
            JsonValue::Object(o) => JsonValue::Object(o.duplicate()),
        }
    }

    pub fn as_str(&self) -> (r: Option<&String>)
        ensures
            r is Some == self@.as_str() is Some,
            r matches Some(s) ==> s@ == self@.as_str()->0,
    {
        match self {
            JsonValue::String(s) => Some(s),
            _ => None,
        }
    }

    pub fn as_i64(&self) -> (r: Option<i64>)
        ensures
            r == self@.as_i64(),
    {
        match self {
            JsonValue::Number(n) => n.int,
            _ => None,
        }
    }

    pub fn as_u64(&self) -> (r: Option<u64>)
        ensures
            r == self@.as_u64(),
    {
        match self {
            JsonValue::Number(n) => n.uint,
            _ => None,
        }
    }

    pub fn as_object(&self) -> (r: Option<&JsonObject>)
        ensures
            r is Some == self@ is Object,
            r matches Some(o) ==> self@ == JsonView::Object(o@),
    {
        match self {
            JsonValue::Object(o) => Some(o),
            _ => None,
        }
    }

    pub fn as_array(&self) -> (r: Option<&Vec<JsonValue>>)
        ensures
            r is Some == self@ is Array,
            r matches Some(a) ==> self@ == JsonView::Array(items_view(a@)),
    {
        match self {
            JsonValue::Array(a) => Some(a),
            _ => None,
        }
    }

    /// `Value::get` with a member name.
    pub fn member(&self, key: &str) -> (r: Option<&JsonValue>)
        ensures
            r is Some == self@.member(key@) is Some,
            r matches Some(v) ==> v@ == self@.member(key@)->0,
    {
        match self {
            JsonValue::Object(o) => o.get(key),
            _ => None,
        }
    }

    /// `Value::to_string`: compact JSON text.
    pub fn to_compact(&self) -> (r: String)
        ensures
            r@ == json_compact(self@),
    {
        let mut out = String::new();
        write_compact(self, &mut out);
        assert(out@ =~= json_compact(self@));
        out
    }
}

proof fn lemma_items_view_push(items: Seq<JsonValue>, v: JsonValue)
    ensures
        items_view(items.push(v)) == items_view(items).push(value_view(v)),
{
    lemma_items_view_index(items.push(v));
    lemma_items_view_index(items);
    assert(items_view(items.push(v)) =~= items_view(items).push(value_view(v)));
}

proof fn lemma_members_view_push(es: Seq<(String, JsonValue)>, e: (String, JsonValue))
    ensures
        members_view(es.push(e)) == members_view(es).push((e.0@, value_view(e.1))),
{
    lemma_members_view_index(es.push(e));
    lemma_members_view_index(es);
    assert(members_view(es.push(e)) =~= members_view(es).push((e.0@, value_view(e.1))));
}

/// Length and indexing of the model of a member list.
pub proof fn lemma_members_view_index(es: Seq<(String, JsonValue)>)
    ensures
        members_view(es).len() == es.len(),
        forall|i: int|
            0 <= i < es.len() ==> #[trigger] members_view(es)[i] == (es[i].0@, value_view(es[i].1)),
    decreases es.len(),
{
    if es.len() > 0 {
        let rest = es.subrange(1, es.len() as int);
        lemma_members_view_index(rest);
        assert forall|i: int| 0 <= i < es.len() implies #[trigger] members_view(es)[i] == (
            es[i].0@,
            value_view(es[i].1),
        ) by {
            if i > 0 {
                assert(rest[i - 1] == es[i]);
            }
        }
    }
}

/// Length and indexing of the model of an item list.
pub proof fn lemma_items_view_index(items: Seq<JsonValue>)
    ensures
        items_view(items).len() == items.len(),
        forall|i: int| 0 <= i < items.len() ==> #[trigger] items_view(items)[i] == value_view(items[i]),
    decreases items.len(),
{
    if items.len() > 0 {
        let rest = items.subrange(1, items.len() as int);
        lemma_items_view_index(rest);
        assert forall|i: int| 0 <= i < items.len() implies #[trigger] items_view(items)[i]
            == value_view(items[i]) by {
            if i > 0 {
                assert(rest[i - 1] == items[i]);
            }
        }
    }
}

fn duplicate_items(items: &Vec<JsonValue>) -> (r: Vec<JsonValue>)
    ensures
        items_view(r@) == items_view(items@),
    decreases items, 1nat,
{
    let mut out: Vec<JsonValue> = Vec::new();
    let mut i: usize = 0;
    while i < items.len()
        invariant
            i <= items.len(),
            items_view(out@) == items_view(items@.take(i as int)),
        decreases items.len() - i,
    {
        assert(decreases_to!(items => items@[i as int]));
        let v = items[i].duplicate();
        proof {
            lemma_items_view_push(out@, v);
            lemma_items_view_push(items@.take(i as int), items@[i as int]);
            assert(items@.take(i + 1) =~= items@.take(i as int).push(items@[i as int]));
        }
        out.push(v);
        i += 1;
    }
    assert(items@.take(items.len() as int) =~= items@);
    out
}

fn duplicate_entries(es: &Vec<(String, JsonValue)>) -> (r: Vec<(String, JsonValue)>)
    ensures
        members_view(r@) == members_view(es@),
    decreases es, 1nat,
{
    let mut out: Vec<(String, JsonValue)> = Vec::new();
    let mut i: usize = 0;
    while i < es.len()
        invariant
            i <= es.len(),
            members_view(out@) == members_view(es@.take(i as int)),
        decreases es.len() - i,
    {
        assert(decreases_to!(es => es@[i as int].1));
        let k = es[i].0.clone();
        let v = es[i].1.duplicate();
        proof {
            lemma_members_view_push(out@, (k, v));
            lemma_members_view_push(es@.take(i as int), es@[i as int]);
            assert(es@.take(i + 1) =~= es@.take(i as int).push(es@[i as int]));
        }
        out.push((k, v));
        i += 1;
    }
    assert(es@.take(es.len() as int) =~= es@);
    out
}

impl JsonObject {
    pub fn new() -> (r: JsonObject)
        ensures
            r@ == Seq::<(Seq<char>, JsonView)>::empty(),
    {
        JsonObject { entries: Vec::new() }
    }

    /// A copy of this object.
    pub fn duplicate(&self) -> (r: JsonObject)
        ensures
            r@ == self@,
        decreases self, 0nat,
    {
        let es = duplicate_entries(&self.entries);
        JsonObject { entries: es }
    }

    pub fn len(&self) -> (r: usize)
        ensures
            r == self@.len(),
    {
        proof {
            lemma_members_view_index(self.entries@);
        }
        self.entries.len()
    }

    /// Position of member `key`, or the number of members.
    pub fn find(&self, key: &str) -> (r: usize)
        ensures
            r == index_of_key(self@, key@),
    {
        proof {
            lemma_members_view_index(self.entries@);
        }
        let ghost es = self@;
        let k = to_owned_string(key);
        let mut i: usize = 0;
        assert(es.skip(0) =~= es);
        while i < self.entries.len()
            invariant
                i <= es.len(),
                es.len() == self.entries@.len(),
                es == self@,
                forall|m: int|
                    0 <= m < self.entries@.len() ==> #[trigger] es[m] == (
                        self.entries@[m].0@,
                        value_view(self.entries@[m].1),
                    ),
                k@ == key@,
                index_of_key(es, key@) == i + index_of_key(es.skip(i as int), key@),
            decreases self.entries.len() - i,
        {
            let ghost rest = es.skip(i as int);
            assert(rest[0] == es[i as int]);
            if self.entries[i].0 == k {
                return i;
            }
            assert(rest.drop_first() =~= es.skip(i + 1));
            i += 1;
        }
        i
    }

    /// Position at which a new member `key` goes.
    fn position_for(&self, key: &str) -> (r: usize)
        ensures
            r == insert_position(self@, key@),
    {
        proof {
            lemma_members_view_index(self.entries@);
        }
        let ghost es = self@;
        let mut i: usize = 0;
        assert(es.skip(0) =~= es);
        while i < self.entries.len()
            invariant
                i <= es.len(),
                es.len() == self.entries@.len(),
                es == self@,
                forall|m: int|
                    0 <= m < self.entries@.len() ==> #[trigger] es[m] == (
                        self.entries@[m].0@,
                        value_view(self.entries@[m].1),
                    ),
                insert_position(es, key@) == i + insert_position(es.skip(i as int), key@),
            decreases self.entries.len() - i,
        {
            let ghost rest = es.skip(i as int);
            assert(rest[0] == es[i as int]);
            if str_lt(key, self.entries[i].0.as_str()) {
                return i;
            }
            assert(rest.drop_first() =~= es.skip(i + 1));
            i += 1;
        }
        i
    }

    /// `Map::contains_key`.
    pub fn contains_key(&self, key: &str) -> (r: bool)
        ensures
            r == has_key(self@, key@),
    {
        proof {
            lemma_members_view_index(self.entries@);
        }
        self.find(key) < self.entries.len()
    }

    /// `Map::get`.
    pub fn get(&self, key: &str) -> (r: Option<&JsonValue>)
        ensures
            r is Some == entries_get(self@, key@) is Some,
            r matches Some(v) ==> v@ == entries_get(self@, key@)->0,
    {
        proof {
            lemma_members_view_index(self.entries@);
        }
        let i = self.find(key);
        if i < self.entries.len() {
            Some(&self.entries[i].1)
        } else {
            None
        }
    }

    /// `Map::insert`.
    pub fn insert(&mut self, key: String, value: JsonValue)
        ensures
            final(self)@ == entries_insert(old(self)@, key@, value@),
    {
        proof {
            lemma_members_view_index(self.entries@);
        }
        let ghost es = self@;
        let ghost entry = (key@, value@);
        let i = self.find(key.as_str());
        if i < self.entries.len() {
            self.entries.set(i, (key, value));
            proof {
                lemma_members_view_index(self.entries@);
                assert(self@ =~= es.update(i as int, entry));
            }
        } else {
            let p = self.position_for(key.as_str());
            proof {
                lemma_insert_position_bound(es, key@);
            }
            self.entries.insert(p, (key, value));
            proof {
                lemma_members_view_index(self.entries@);
                assert(self@ =~= es.insert(p as int, entry));
            }
        }
    }

    /// `Map::remove`.
    pub fn remove(&mut self, key: &str) -> (r: Option<JsonValue>)
        ensures
            final(self)@ == entries_remove(old(self)@, key@),
            r is Some == entries_get(old(self)@, key@) is Some,
            r matches Some(v) ==> v@ == entries_get(old(self)@, key@)->0,
    {
        proof {
            lemma_members_view_index(self.entries@);
        }
        let ghost es = self@;
        let i = self.find(key);
        if i < self.entries.len() {
            let (_, v) = self.entries.remove(i);
            proof {
                lemma_members_view_index(self.entries@);
                assert(self@ =~= es.remove(i as int));
            }
            Some(v)
        } else {
            None
        }
    }

    /// The member names in order.
    pub fn keys(&self) -> (r: Vec<String>)
        ensures
            views(r@) == entry_keys(self@),
    {
        proof {
            lemma_members_view_index(self.entries@);
        }
        let mut out: Vec<String> = Vec::new();
        let mut i: usize = 0;
        while i < self.entries.len()
            invariant
                i <= self.entries@.len(),
                self@.len() == self.entries@.len(),
                forall|m: int|
                    0 <= m < self.entries@.len() ==> #[trigger] self@[m] == (
                        self.entries@[m].0@,
                        value_view(self.entries@[m].1),
                    ),
                views(out@) == entry_keys(self@).take(i as int),
            decreases self.entries.len() - i,
        {
            assert(self@[i as int].0 == self.entries@[i as int].0@);
            let ghost before = out@;
            let k = self.entries[i].0.clone();
            out.push(k);
            assert(views(out@) =~= views(before).push(k@));
            assert(entry_keys(self@).take(i + 1) =~= entry_keys(self@).take(i as int).push(
                self@[i as int].0,
            ));
            i += 1;
        }
        assert(entry_keys(self@).take(self@.len() as int) =~= entry_keys(self@));
        out
    }
}

proof fn lemma_insert_position_bound(es: Seq<(Seq<char>, JsonView)>, key: Seq<char>)
    ensures
        0 <= insert_position(es, key) <= es.len(),
    decreases es.len(),
{
    if es.len() > 0 {
        lemma_insert_position_bound(es.drop_first(), key);
    }
}

fn hex_digit_exec(d: u32) -> (r: char)
    requires
        d < 16,
    ensures
        r == hex_digit(d),
{
    if d < 10 {
        ((d as u8) + 48) as char
    } else {
        ((d as u8) + 87) as char
    }
}

fn write_escaped_char(c: char, out: &mut String)
    ensures
        final(out)@ == old(out)@ + json_escape_char(c),
{
    let u = c as u32;
    if c == '"' {
        push_char(out, '\\');
        push_char(out, '"');
    } else if c == '\\' {
        push_char(out, '\\');
        push_char(out, '\\');
    } else if u == 0x08 {
        push_char(out, '\\');
        push_char(out, 'b');
    } else if u == 0x09 {
        push_char(out, '\\');
        push_char(out, 't');
    } else if u == 0x0a {
        push_char(out, '\\');
        push_char(out, 'n');
    } else if u == 0x0c {
        push_char(out, '\\');
        push_char(out, 'f');
    } else if u == 0x0d {
        push_char(out, '\\');
        push_char(out, 'r');
    } else if u < 0x20 {
        push_char(out, '\\');
        push_char(out, 'u');
        push_char(out, '0');
        push_char(out, '0');
        push_char(out, hex_digit_exec(u / 16));
        push_char(out, hex_digit_exec(u % 16));
    } else {
        push_char(out, c);
    }
    assert(final(out)@ =~= old(out)@ + json_escape_char(c));
}

/// Appends a JSON string literal for `s`.
pub fn write_quoted(s: &str, out: &mut String)
    ensures
        final(out)@ == old(out)@ + json_quote(s@),
{
    let cs = chars_of(s);
    push_char(out, '"');
    let ghost start = out@;
    let mut i: usize = 0;
    assert(s@.take(0) =~= Seq::<char>::empty());
    while i < cs.len()
        invariant
            i <= cs.len(),
            cs@ == s@,
            out@ == start + json_escape(s@.take(i as int)),
        decreases cs.len() - i,
    {
        write_escaped_char(cs[i], out);
        assert(s@.take(i + 1).drop_last() =~= s@.take(i as int));
        assert(out@ =~= start + json_escape(s@.take(i + 1)));
        i += 1;
    }
    assert(s@.take(cs.len() as int) =~= s@);
    push_char(out, '"');
    assert(out@ =~= old(out)@ + json_quote(s@));
}

fn write_compact(v: &JsonValue, out: &mut String)
    ensures
        final(out)@ == old(out)@ + json_compact(v@),
    decreases *v, 0nat,
{
    match v {
        JsonValue::Null => {
            push_str(out, "null");
            proof {
                reveal_strlit("null");
            }
        },
        JsonValue::Bool(b) => {
            if *b {
                push_str(out, "true");
                proof {
                    reveal_strlit("true");
                }
            } else {
                push_str(out, "false");
                proof {
                    reveal_strlit("false");
                }
            }
        },
        JsonValue::Number(n) => {
            push_str(out, n.text.as_str());
        },
        JsonValue::String(s) => {
            write_quoted(s.as_str(), out);
        },
        JsonValue::Array(items) => {
            push_char(out, '[');
            proof {
                lemma_items_view_index(items@);
            }
            write_items(items, 0, out);
            assert(items_view(items@).subrange(0, items@.len() as int) =~= items_view(items@));
            push_char(out, ']');
        },
        JsonValue::Object(o) => {
            push_char(out, '{');
            proof {
                lemma_members_view_index(o.entries@);
            }
            write_members(&o.entries, 0, out);
            assert(members_view(o.entries@).subrange(0, o.entries@.len() as int) =~= members_view(
                o.entries@,
            ));
            push_char(out, '}');
        },
    }
    assert(final(out)@ =~= old(out)@ + json_compact(v@));
}

fn write_items(items: &Vec<JsonValue>, from: usize, out: &mut String)
    requires
        from <= items.len(),
    ensures
        final(out)@ == old(out)@ + compact_items(
            items_view(items@).subrange(from as int, items@.len() as int),
        ),
    decreases items, 1nat, items.len() - from,
{
    proof {
        lemma_items_view_index(items@);
    }
    let ghost rest = items_view(items@).subrange(from as int, items@.len() as int);
    if from == items.len() {
        assert(rest.len() == 0);
        return;
    }
    assert(decreases_to!(items => items@[from as int]));
    write_compact(&items[from], out);
    assert(rest[0] == items[from as int]@);
    if from + 1 < items.len() {
        push_char(out, ',');
        write_items(items, from + 1, out);
        assert(rest.subrange(1, rest.len() as int) =~= items_view(items@).subrange(
            from + 1,
            items@.len() as int,
        ));
    }
    assert(final(out)@ =~= old(out)@ + compact_items(rest));
}

fn write_members(es: &Vec<(String, JsonValue)>, from: usize, out: &mut String)
    requires
        from <= es.len(),
    ensures
        final(out)@ == old(out)@ + compact_members(
            members_view(es@).subrange(from as int, es@.len() as int),
        ),
    decreases es, 1nat, es.len() - from,
{
    proof {
        lemma_members_view_index(es@);
    }
    let ghost rest = members_view(es@).subrange(from as int, es@.len() as int);
    if from == es.len() {
        assert(rest.len() == 0);
        return;
    }
    assert(decreases_to!(es => es@[from as int].1));
    write_quoted(es[from].0.as_str(), out);
    push_char(out, ':');
    write_compact(&es[from].1, out);
    assert(rest[0] == (es@[from as int].0@, es@[from as int].1@));
    if from + 1 < es.len() {
        push_char(out, ',');
        write_members(es, from + 1, out);
        assert(rest.subrange(1, rest.len() as int) =~= members_view(es@).subrange(
            from + 1,
            es@.len() as int,
        ));
    }
    assert(final(out)@ =~= old(out)@ + compact_members(rest));
}

pub proof fn lemma_index_of_key_bound(es: Seq<(Seq<char>, JsonView)>, key: Seq<char>)
    ensures
        0 <= index_of_key(es, key) <= es.len(),
        index_of_key(es, key) < es.len() ==> es[index_of_key(es, key)].0 == key,
        forall|j: int| 0 <= j < index_of_key(es, key) ==> es[j].0 != key,
    decreases es.len(),
{
    if es.len() > 0 {
        lemma_index_of_key_bound(es.drop_first(), key);
        assert forall|j: int| 0 <= j < index_of_key(es, key) implies es[j].0 != key by {
            if j > 0 {
                assert(es.drop_first()[j - 1] == es[j]);
            }
        }
    }
}

/// The first position holding `key` is determined by where `key` first occurs.
pub proof fn lemma_index_of_key_unique(es: Seq<(Seq<char>, JsonView)>, key: Seq<char>, i: int)
    requires
        0 <= i <= es.len(),
        i < es.len() ==> es[i].0 == key,
        forall|j: int| 0 <= j < i ==> es[j].0 != key,
    ensures
        index_of_key(es, key) == i,
{
    lemma_index_of_key_bound(es, key);
    let k = index_of_key(es, key);
    if k < i {
        assert(es[k].0 == key);
    } else if i < k {
        assert(es[i].0 != key);
    }
}

/// Removing one member leaves every other member's lookup unchanged.
pub proof fn lemma_get_after_remove_other(es: Seq<(Seq<char>, JsonView)>, removed: Seq<char>, key: Seq<char>)
    requires
        removed != key,
    ensures
        entries_get(entries_remove(es, removed), key) == entries_get(es, key),
{
    lemma_index_of_key_bound(es, removed);
    lemma_index_of_key_bound(es, key);
    let r = index_of_key(es, removed);
    let k = index_of_key(es, key);
    if r < es.len() {
        let es2 = es.remove(r);
        lemma_index_of_key_bound(es2, key);
        let k2 = if k < r { k } else if k < es.len() { k - 1 } else { es2.len() as int };
        assert forall|j: int| 0 <= j < k2 implies es2[j].0 != key by {
            if j < r {
                assert(es2[j] == es[j]);
            } else {
                assert(es2[j] == es[j + 1]);
            }
        }
        if k2 < es2.len() {
            if k < r {
                assert(es2[k2] == es[k]);
            } else {
                assert(es2[k2] == es[k]);
            }
        }
        lemma_index_of_key_unique(es2, key, k2);
    }
}

} // verus!
