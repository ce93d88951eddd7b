use vstd::prelude::*;
use crate::numbers::str_equal;

verus! {

/// A key and its value, as plain text.
pub type Entry = (Seq<char>, Seq<char>);

/// The value that `key` has among `entries`, looking from the last entry back.
pub open spec fn lookup(entries: Seq<Entry>, key: Seq<char>) -> Option<Seq<char>>
    decreases entries.len(),
{
    if entries.len() == 0 {
        None
    } else if entries.last().0 == key {
        Some(entries.last().1)
    } else {
        lookup(entries.drop_last(), key)
    }
}

/// No key occurs twice among `entries`.
pub open spec fn distinct_keys(entries: Seq<Entry>) -> bool {
    forall|i: int, j: int| 0 <= i < j < entries.len() ==> entries[i].0 != entries[j].0
}

/// The view of a list of string pairs.
pub open spec fn entries_view(v: Seq<(String, String)>) -> Seq<Entry> {
    v.map_values(|e: (String, String)| (e.0@, e.1@))
}

/// When the keys are distinct, the value found for the key of entry `i` is that entry's value.
pub proof fn lemma_lookup_at(entries: Seq<Entry>, i: int)
    requires
        distinct_keys(entries),
        0 <= i < entries.len(),
    ensures
        lookup(entries, entries[i].0) == Some(entries[i].1),
    decreases entries.len(),
{
    if i < entries.len() - 1 {
        lemma_lookup_at(entries.drop_last(), i);
    }
}

/// A key found by `lookup` occurs among the entries, with that value.
pub proof fn lemma_lookup_some(entries: Seq<Entry>, key: Seq<char>)
    ensures
        lookup(entries, key) is None <==> (forall|i: int| 0 <= i < entries.len() ==> #[trigger] entries[i].0 != key),
        lookup(entries, key) matches Some(v) ==> exists|i: int| 0 <= i < entries.len() && #[trigger] entries[i] == (key, v),
    decreases entries.len(),
{
    if entries.len() > 0 {
        lemma_lookup_some(entries.drop_last(), key);
        if entries.last().0 != key {
            assert forall|i: int| 0 <= i < entries.len() - 1 implies #[trigger] entries[i] == entries.drop_last()[i] by {}
            if lookup(entries, key) is None {
                assert forall|i: int| 0 <= i < entries.len() implies #[trigger] entries[i].0 != key by {
                    if i < entries.len() - 1 {
                        assert(entries.drop_last()[i] == entries[i]);
                    }
                }
            }
            if let Some(v) = lookup(entries, key) {
                let i = choose|i: int| 0 <= i < entries.drop_last().len() && #[trigger] entries.drop_last()[i] == (key, v);
                assert(entries[i] == (key, v));
            }
        } else {
            assert(entries[entries.len() - 1] == (key, entries.last().1));
        }
    }
}

/// The position of `key` among `entries`, where it occurs.
pub open spec fn key_index(entries: Seq<Entry>, key: Seq<char>) -> int {
    choose|i: int| 0 <= i < entries.len() && entries[i].0 == key
}

/// The entries after setting `key` to `value`: in place when the key is present, at the
/// end otherwise.
pub open spec fn after_insert(entries: Seq<Entry>, key: Seq<char>, value: Seq<char>) -> Seq<Entry> {
    if lookup(entries, key) is None {
        entries.push((key, value))
    } else {
        entries.update(key_index(entries, key), (key, value))
    }
}

/// With distinct keys, the position of a key is the one entry that holds it.
proof fn lemma_key_index_unique(entries: Seq<Entry>, key: Seq<char>, i: int)
    requires
        distinct_keys(entries),
        0 <= i < entries.len(),
        entries[i].0 == key,
    ensures
        key_index(entries, key) == i,
{
    let j = key_index(entries, key);
    assert(0 <= j < entries.len() && entries[j].0 == key);
    if j != i {
        if j < i {
            assert(entries[j].0 != entries[i].0);
        } else {
            assert(entries[i].0 != entries[j].0);
        }
    }
}

/// A map read gives back the last write: after setting `key` to `value`, `key` has that
/// value and every other key keeps the value it had.
pub proof fn law_get_after_insert(entries: Seq<Entry>, key: Seq<char>, value: Seq<char>, other: Seq<char>)
    requires
        distinct_keys(entries),
    ensures
        lookup(after_insert(entries, key, value), key) == Some(value),
        other != key ==> lookup(after_insert(entries, key, value), other) == lookup(entries, other),
        distinct_keys(after_insert(entries, key, value)),
{
    lemma_lookup_some(entries, key);
    let e2 = after_insert(entries, key, value);
    if lookup(entries, key) is None {
        assert(e2.drop_last() =~= entries);
        assert forall|a: int, b: int| 0 <= a < b < e2.len() implies e2[a].0 != e2[b].0 by {
            if b == entries.len() {
                assert(entries[a].0 != key);
            } else {
                assert(entries[a].0 != entries[b].0);
            }
        }
    } else {
        let i = choose|i: int| 0 <= i < entries.len() && #[trigger] entries[i] == (key, lookup(entries, key)->0);
        lemma_key_index_unique(entries, key, i);
        assert forall|a: int, b: int| 0 <= a < b < e2.len() implies e2[a].0 != e2[b].0 by {
            assert(entries[a].0 != entries[b].0);
        }
        lemma_lookup_at(e2, i);
        lemma_lookup_some(entries, other);
        lemma_lookup_some(e2, other);
        if other != key {
            if let Some(v) = lookup(entries, other) {
                let j = choose|j: int| 0 <= j < entries.len() && #[trigger] entries[j] == (other, v);
                assert(e2[j] == entries[j]);
                lemma_lookup_at(e2, j);
            } else {
                assert forall|j: int| 0 <= j < e2.len() implies #[trigger] e2[j].0 != other by {
                    if j != i {
                        assert(e2[j] == entries[j]);
                    }
                }
            }
        }
        return;
    }
    lemma_lookup_at(e2, entries.len() as int);
    lemma_lookup_some(entries, other);
    lemma_lookup_some(e2, other);
    if other != key {
        if let Some(v) = lookup(entries, other) {
            let j = choose|j: int| 0 <= j < entries.len() && #[trigger] entries[j] == (other, v);
            assert(e2[j] == entries[j]);
            lemma_lookup_at(e2, j);
        } else {
            assert forall|j: int| 0 <= j < e2.len() implies #[trigger] e2[j].0 != other by {
                if j < entries.len() {
                    assert(e2[j] == entries[j]);
                }
            }
        }
    }
}

/// Query-string parameters: text keys, each present at most once, with text values,
/// kept in the order in which they were first inserted.
#[derive(Debug)]
pub struct QueryParams {
    entries: Vec<(String, String)>,
}

impl View for QueryParams {
    type V = Seq<Entry>;

    closed spec fn view(&self) -> Seq<Entry> {
        entries_view(self.entries@)
    }
}

impl QueryParams {
    #[verifier::type_invariant]
    closed spec fn keys_unique(self) -> bool {
        distinct_keys(entries_view(self.entries@))
    }

    /// An empty parameter list.
    pub fn new() -> (r: QueryParams)
        ensures
            r@ == Seq::<Entry>::empty(),
    {
        let r = QueryParams { entries: Vec::new() };
        assert(entries_view(r.entries@) =~= Seq::<Entry>::empty());
        r
    }

    /// The number of parameters; no key occurs twice among them.
    pub fn len(&self) -> (r: usize)
        ensures
            r == self@.len(),
            distinct_keys(self@),
    {
        proof {
            use_type_invariant(self);
        }
        self.entries.len()
    }

    /// The key and value of parameter `i`.
    pub fn entry(&self, i: usize) -> (r: (&String, &String))
        requires
            i < self@.len(),
        ensures
            (r.0@, r.1@) == self@[i as int],
    {
        let e = &self.entries[i];
        (&e.0, &e.1)
    }

    /// The position of `key`, if present.
    fn position(&self, key: &str) -> (r: Option<usize>)
        ensures
            match r {
                Some(i) => i < self@.len() && self@[i as int].0 == key@,
                None => forall|i: int| 0 <= i < self@.len() ==> #[trigger] self@[i].0 != key@,
            },
    {
        let n = self.entries.len();
        let mut i: usize = 0;
        while i < n
            invariant
                i <= n,
                n == self.entries@.len(),
                self@ == entries_view(self.entries@),
                forall|k: int| 0 <= k < i ==> #[trigger] self@[k].0 != key@,
            decreases n - i,
        {
            if str_equal(self.entries[i].0.as_str(), key) {
                return Some(i);
            }
            i = i + 1;
        }
        None
    }

    /// The value of `key`, if present.
    pub fn get(&self, key: &str) -> (r: Option<&String>)
        ensures
            match r {
                Some(v) => lookup(self@, key@) == Some(v@),
                None => lookup(self@, key@) is None,
            },
    {
        proof {
            use_type_invariant(self);
            lemma_lookup_some(self@, key@);
        }
        match self.position(key) {
            Some(i) => {
                proof {
                    lemma_lookup_at(self@, i as int);
                    lemma_key_index_unique(self@, key@, i as int);
                }
                Some(&self.entries[i].1)
            },
            None => None,
        }
    }

    /// Whether `key` is present.
    pub fn contains_key(&self, key: &str) -> (r: bool)
        ensures
            r == (lookup(self@, key@) is Some),
    {
        self.get(key).is_some()
    }

    /// Sets `key` to `value`: in place when the key is present, at the end otherwise.
    /// Returns the value that the key had.
    pub fn insert(&mut self, key: String, value: String) -> (r: Option<String>)
        ensures
            match r {
                Some(old_v) => lookup(old(self)@, key@) == Some(old_v@),
                None => lookup(old(self)@, key@) is None,
            },
            lookup(old(self)@, key@) is None ==> final(self)@ == old(self)@.push((key@, value@)),
            lookup(old(self)@, key@) is Some ==> exists|i: int|
                0 <= i < old(self)@.len() && old(self)@[i].0 == key@ && final(self)@ == old(self)@.update(i, (key@, value@)),
            final(self)@ == after_insert(old(self)@, key@, value@),
    {
        proof {
            use_type_invariant(&*self);
            lemma_lookup_some(self@, key@);
        }
        match self.position(key.as_str()) {
            Some(i) => {
                proof {
                    lemma_lookup_at(self@, i as int);
                    lemma_key_index_unique(self@, key@, i as int);
                }
                let ghost before = self.entries@;
                let old_value = self.entries[i].1.clone();
                let mut v: Vec<(String, String)> = Vec::new();
                std::mem::swap(&mut v, &mut self.entries);
                let ghost kv = key@;
                let ghost vv = value@;
                v.set(i, (key, value));
                assert(entries_view(v@) =~= entries_view(before).update(i as int, (kv, vv)));
                assert(distinct_keys(entries_view(v@))) by {
                    assert forall|a: int, b: int| 0 <= a < b < entries_view(v@).len() implies entries_view(v@)[a].0 != entries_view(v@)[b].0 by {
                        assert(entries_view(before)[a].0 != entries_view(before)[b].0);
                    }
                }
                self.entries = v;
                Some(old_value)
            },
            None => {
                let ghost before = self.entries@;
                let ghost kv = key@;
                let ghost vv = value@;
                let mut v: Vec<(String, String)> = Vec::new();
                std::mem::swap(&mut v, &mut self.entries);
                v.push((key, value));
                assert(entries_view(v@) =~= entries_view(before).push((kv, vv)));
                assert(distinct_keys(entries_view(v@))) by {
                    assert forall|a: int, b: int| 0 <= a < b < entries_view(v@).len() implies entries_view(v@)[a].0 != entries_view(v@)[b].0 by {
                        if b < entries_view(before).len() {
                            assert(entries_view(before)[a].0 != entries_view(before)[b].0);
                        } else {
                            assert(entries_view(before)[a].0 != kv);
                        }
                    }
                }
                self.entries = v;
                None
            },
        }
    }

    /// Removes `key`, returning its value; the other parameters keep their order.
    pub fn remove(&mut self, key: &str) -> (r: Option<String>)
        ensures
            match r {
                Some(old_v) => lookup(old(self)@, key@) == Some(old_v@),
                None => lookup(old(self)@, key@) is None && final(self)@ == old(self)@,
            },
            forall|i: int| 0 <= i < old(self)@.len() && old(self)@[i].0 != key@ ==> final(self)@.contains(old(self)@[i]),
            forall|i: int| 0 <= i < final(self)@.len() ==> #[trigger] final(self)@[i].0 != key@,
    {
        proof {
            use_type_invariant(&*self);
            lemma_lookup_some(self@, key@);
        }
        match self.position(key) {
            Some(i) => {
                proof {
                    lemma_lookup_at(self@, i as int);
                    lemma_key_index_unique(self@, key@, i as int);
                }
                let ghost before = self.entries@;
                let mut v: Vec<(String, String)> = Vec::new();
                std::mem::swap(&mut v, &mut self.entries);
                let removed = v.remove(i);
                let ghost bv = entries_view(before);
                assert(entries_view(v@) =~= bv.remove(i as int));
                assert(distinct_keys(entries_view(v@))) by {
                    assert forall|a: int, b: int| 0 <= a < b < entries_view(v@).len() implies entries_view(v@)[a].0 != entries_view(v@)[b].0 by {
                        let a2 = if a < i { a } else { a + 1 };
                        let b2 = if b < i { b } else { b + 1 };
                        assert(entries_view(v@)[a] == bv[a2]);
                        assert(entries_view(v@)[b] == bv[b2]);
                    }
                }
                self.entries = v;
                assert forall|k: int| 0 <= k < bv.len() && bv[k].0 != key@ implies entries_view(self.entries@).contains(bv[k]) by {
                    if k < i {
                        assert(entries_view(self.entries@)[k] == bv[k]);
                    } else {
                        assert(entries_view(self.entries@)[k - 1] == bv[k]);
                    }
                }
                assert forall|k: int| 0 <= k < entries_view(self.entries@).len() implies #[trigger] entries_view(self.entries@)[k].0 != key@ by {
                    if k < i {
                        assert(entries_view(self.entries@)[k] == bv[k]);
                    } else {
                        assert(entries_view(self.entries@)[k] == bv[k + 1]);
                    }
                }
                Some(removed.1)
            },
            None => {
                assert forall|k: int| 0 <= k < self@.len() && self@[k].0 != key@ implies self@.contains(self@[k]) by {}
                None
            },
        }
    }
}

} // verus!
