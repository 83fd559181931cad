//! String-keyed association lists and string sets, standing in for the
//! `BTreeMap<String, _>` and `BTreeSet<String>` of a configuration.
use vstd::prelude::*;
use crate::text::{to_owned_string, views};

verus! {

/// The entries with their keys taken as character sequences.
pub open spec fn keyed<V>(es: Seq<(String, V)>) -> Seq<(Seq<char>, V)> {
    es.map_values(|e: (String, V)| (e.0@, e.1))
}

/// Position of the first entry with key `key`, or the number of entries.
pub open spec fn assoc_index<V>(es: Seq<(Seq<char>, V)>, key: Seq<char>) -> int
    decreases es.len(),
{
    if es.len() == 0 {
        0
    } else if es[0].0 == key {
        0
    } else {
        1 + assoc_index(es.drop_first(), key)
    }
}

/// The value stored under `key`.
pub open spec fn assoc_get<V>(es: Seq<(Seq<char>, V)>, key: Seq<char>) -> Option<V> {
    let i = assoc_index(es, key);
    if i < es.len() {
        Some(es[i].1)
    } else {
        None
    }
}

/// `key` mapped to `v`: the entry replaced when present, appended otherwise.
pub open spec fn assoc_set<V>(es: Seq<(Seq<char>, V)>, key: Seq<char>, v: V) -> Seq<(Seq<char>, V)> {
    let i = assoc_index(es, key);
    if i < es.len() {
        es.update(i, (key, v))
    } else {
        es.push((key, v))
    }
}

/// No key occurs twice, as in a map.
pub open spec fn keys_unique<V>(es: Seq<(Seq<char>, V)>) -> bool {
    forall|i: int, j: int| 0 <= i < j < es.len() ==> #[trigger] es[i].0 != #[trigger] es[j].0
}

/// Setting a key keeps every key once.
pub proof fn lemma_assoc_set_unique<V>(es: Seq<(Seq<char>, V)>, key: Seq<char>, v: V)
    requires
        keys_unique(es),
    ensures
        keys_unique(assoc_set(es, key, v)),
{
    lemma_assoc_index_bound(es, key);
    let i = assoc_index(es, key);
    let es2 = assoc_set(es, key, v);
    assert forall|a: int, b: int| 0 <= a < b < es2.len() implies #[trigger] es2[a].0 != #[trigger] es2[b].0 by {
        if i < es.len() {
            assert(es2[a].0 == es[a].0);
            assert(es2[b].0 == es[b].0);
        } else if b == es.len() {
            assert(es2[a] == es[a]);
            assert(es[a].0 != key);
        } else {
            assert(es2[a] == es[a]);
            assert(es2[b] == es[b]);
        }
    }
}

pub proof fn lemma_assoc_index_bound<V>(es: Seq<(Seq<char>, V)>, key: Seq<char>)
    ensures
        0 <= assoc_index(es, key) <= es.len(),
        assoc_index(es, key) < es.len() ==> es[assoc_index(es, key)].0 == key,
        forall|j: int| 0 <= j < assoc_index(es, key) ==> es[j].0 != key,
    decreases es.len(),
{
    if es.len() > 0 {
        lemma_assoc_index_bound(es.drop_first(), key);
        assert forall|j: int| 0 <= j < assoc_index(es, key) implies es[j].0 != key by {
            if j > 0 {
                assert(es.drop_first()[j - 1] == es[j]);
            }
        }
    }
}

/// Position of the first entry whose key is `key`, or the number of entries.
pub fn assoc_find<V>(es: &Vec<(String, V)>, key: &str) -> (r: usize)
    ensures
        r == assoc_index(keyed(es@), key@),
{
    let ghost ks = keyed(es@);
    let k = to_owned_string(key);
    let mut i: usize = 0;
    assert(ks.skip(0) =~= ks);
    while i < es.len()
        invariant
            i <= es@.len(),
            ks == keyed(es@),
            k@ == key@,
            assoc_index(ks, key@) == i + assoc_index(ks.skip(i as int), key@),
        decreases es.len() - i,
    {
        let ghost rest = ks.skip(i as int);
        assert(rest[0] == ks[i as int]);
        if es[i].0 == k {
            return i;
        }
        assert(rest.drop_first() =~= ks.skip(i + 1));
        i += 1;
    }
    i
}

/// Sets `key` to `v`: replaces the first entry with that key, appends otherwise.
pub fn assoc_put<V>(es: &mut Vec<(String, V)>, key: String, v: V)
    ensures
        keyed(final(es)@) == assoc_set(keyed(old(es)@), key@, v),
{
    let ghost ks = keyed(es@);
    let i = assoc_find(es, key.as_str());
    let ghost kk = key@;
    if i < es.len() {
        es.set(i, (key, v));
        assert(keyed(es@) =~= ks.update(i as int, (kk, v)));
    } else {
        es.push((key, v));
        assert(keyed(es@) =~= ks.push((kk, v)));
    }
}

/// A set of strings.
pub struct StringSet {
    pub items: Vec<String>,
}

impl View for StringSet {
    type V = Set<Seq<char>>;

    open spec fn view(&self) -> Set<Seq<char>> {
        views(self.items@).to_set()
    }
}

impl StringSet {
    pub fn new() -> (r: StringSet)
        ensures
            r@ == Set::<Seq<char>>::empty(),
    {
        let r = StringSet { items: Vec::new() };
        assert(views(r.items@).to_set() =~= Set::<Seq<char>>::empty());
        r
    }

    /// Membership.
    pub fn contains(&self, s: &str) -> (r: bool)
        ensures
            r == self@.contains(s@),
    {
        let k = to_owned_string(s);
        let mut i: usize = 0;
        while i < self.items.len()
            invariant
                i <= self.items@.len(),
                k@ == s@,
                forall|j: int| 0 <= j < i ==> self.items@[j]@ != s@,
            decreases self.items.len() - i,
        {
            if self.items[i] == k {
                assert(views(self.items@)[i as int] == s@);
                return true;
            }
            i += 1;
        }
        proof {
            if views(self.items@).contains(s@) {
                let j = choose|j: int| 0 <= j < views(self.items@).len() && views(self.items@)[j] == s@;
                assert(self.items@[j]@ == s@);
            }
        }
        false
    }

    /// Adds `s` when absent.
    pub fn insert(&mut self, s: String)
        ensures
            final(self)@ == old(self)@.insert(s@),
    {
        let present = self.contains(s.as_str());
        let ghost before = views(self.items@);
        if !present {
            let ghost sv = s@;
            self.items.push(s);
            assert(views(self.items@) =~= before.push(sv));
            proof {
                before.lemma_push_to_set_commute(sv);
            }
        } else {
            assert(before.to_set().insert(s@) =~= before.to_set());
        }
    }

    /// The set of the given strings.
    pub fn from_vec(v: Vec<String>) -> (r: StringSet)
        ensures
            r@ == views(v@).to_set(),
    {
        let mut r = StringSet::new();
        let mut i: usize = 0;
        while i < v.len()
            invariant
                i <= v@.len(),
                r@ == views(v@.take(i as int)).to_set(),
            decreases v.len() - i,
        {
            let ghost before = views(v@.take(i as int));
            r.insert(v[i].clone());
            assert(views(v@.take(i + 1)) =~= before.push(v@[i as int]@));
            proof {
                before.lemma_push_to_set_commute(v@[i as int]@);
            }
            i += 1;
        }
        assert(v@.take(v@.len() as int) =~= v@);
        r
    }
}

} // verus!
