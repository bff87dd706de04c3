//! A map from owned string keys to values, with a map view.

use vstd::prelude::*;
use crate::text::str_eq;

verus! {

/// The map a list of entries stands for: a later entry of the same key replaces an earlier one.
pub open spec fn owned_view<V: View>(entries: Seq<(String, V)>) -> Map<Seq<char>, V::V>
    decreases entries.len(),
{
    if entries.len() == 0 {
        Map::empty()
    } else {
        owned_view(entries.drop_last()).insert(entries.last().0@, entries.last().1@)
    }
}

/// No two entries share a key.
pub open spec fn owned_distinct<V>(entries: Seq<(String, V)>) -> bool {
    forall|i: int, j: int| 0 <= i < j < entries.len() ==> entries[i].0@ != entries[j].0@
}

pub proof fn lemma_owned_dom<V: View>(entries: Seq<(String, V)>, key: Seq<char>)
    ensures
        owned_view(entries).contains_key(key) <==> exists|k: int| 0 <= k < entries.len() && entries[k].0@ == key,
    decreases entries.len(),
{
    if entries.len() > 0 {
        lemma_owned_dom(entries.drop_last(), key);
        if owned_view(entries).contains_key(key) && entries.last().0@ != key {
            let k = choose|k: int| 0 <= k < entries.len() - 1 && entries.drop_last()[k].0@ == key;
            assert(entries[k].0@ == key);
        }
        if exists|k: int| 0 <= k < entries.len() && entries[k].0@ == key {
            let k = choose|k: int| 0 <= k < entries.len() && entries[k].0@ == key;
            if k < entries.len() - 1 {
                assert(entries.drop_last()[k].0@ == key);
            }
        }
    }
}

pub proof fn lemma_owned_index<V: View>(entries: Seq<(String, V)>, k: int)
    requires
        owned_distinct(entries),
        0 <= k < entries.len(),
    ensures
        owned_view(entries).contains_key(entries[k].0@),
        owned_view(entries)[entries[k].0@] == entries[k].1@,
    decreases entries.len(),
{
    if k < entries.len() - 1 {
        lemma_owned_index(entries.drop_last(), k);
    }
}

pub proof fn lemma_owned_len<V: View>(entries: Seq<(String, V)>)
    requires
        owned_distinct(entries),
    ensures
        owned_view(entries).dom().finite(),
        owned_view(entries).dom().len() == entries.len(),
    decreases entries.len(),
{
    if entries.len() > 0 {
        let prev = entries.drop_last();
        lemma_owned_len(prev);
        lemma_owned_dom(prev, entries.last().0@);
    }
}

pub proof fn lemma_owned_push<V: View>(entries: Seq<(String, V)>, e: (String, V))
    requires
        owned_distinct(entries),
        forall|j: int| 0 <= j < entries.len() ==> entries[j].0@ != e.0@,
    ensures
        owned_distinct(entries.push(e)),
        owned_view(entries.push(e)) == owned_view(entries).insert(e.0@, e.1@),
{
    assert(entries.push(e).drop_last() =~= entries);
}

pub proof fn lemma_owned_replace<V: View>(entries: Seq<(String, V)>, k: int, e: (String, V))
    requires
        owned_distinct(entries),
        0 <= k < entries.len(),
        entries[k].0@ == e.0@,
    ensures
        owned_distinct(entries.update(k, e)),
        owned_view(entries.update(k, e)) == owned_view(entries).insert(e.0@, e.1@),
{
    let e2 = entries.update(k, e);
    assert(owned_distinct(e2));
    let m1 = owned_view(e2);
    let m2 = owned_view(entries).insert(e.0@, e.1@);
    assert forall|key: Seq<char>| m1.contains_key(key) <==> m2.contains_key(key) by {
        lemma_owned_dom(e2, key);
        lemma_owned_dom(entries, key);
        assert(e2[k].0@ == e.0@);
        if m2.contains_key(key) && key != e.0@ {
            let j = choose|j: int| 0 <= j < entries.len() && entries[j].0@ == key;
            assert(e2[j].0@ == key);
        }
        if m1.contains_key(key) {
            let j = choose|j: int| 0 <= j < e2.len() && e2[j].0@ == key;
            if j != k {
                assert(entries[j].0@ == key);
            }
        }
    }
    assert forall|key: Seq<char>| m1.contains_key(key) implies m1[key] == m2[key] by {
        lemma_owned_dom(e2, key);
        let j = choose|j: int| 0 <= j < e2.len() && e2[j].0@ == key;
        lemma_owned_index(e2, j);
        if j != k {
            lemma_owned_index(entries, j);
        }
    }
    assert(m1 =~= m2);
}

/// A map from owned names to values, each name at most once.
pub struct StringMap<V> {
    entries: Vec<(String, V)>,
}

impl<V: View> View for StringMap<V> {
    type V = Map<Seq<char>, V::V>;

    closed spec fn view(&self) -> Map<Seq<char>, V::V> {
        owned_view(self.entries@)
    }
}

impl<V> StringMap<V> {
    #[verifier::type_invariant]
    spec fn keys_distinct(&self) -> bool {
        owned_distinct(self.entries@)
    }

    /// The entries in insertion order.
    pub closed spec fn entry_list(&self) -> Seq<(String, V)> {
        self.entries@
    }
}

impl<V: View> StringMap<V> {
    /// The empty list.
    pub fn new() -> (r: Self)
        ensures
            r@ == Map::<Seq<char>, V::V>::empty(),
            r.entry_list().len() == 0,
    {
        StringMap { entries: Vec::new() }
    }

    fn position(&self, key: &str) -> (r: Option<usize>)
        ensures
            match r {
                Some(k) => k < self.entries@.len() && self.entries@[k as int].0@ == key@,
                None => forall|j: int| 0 <= j < self.entries@.len() ==> self.entries@[j].0@ != key@,
            },
    {
        let mut i: usize = 0;
        while i < self.entries.len()
            invariant
                i <= self.entries@.len(),
                forall|j: int| 0 <= j < i ==> self.entries@[j].0@ != key@,
            decreases self.entries.len() - i,
        {
            if str_eq(self.entries[i].0.as_str(), key) {
                return Some(i);
            }
            i = i + 1;
        }
        None
    }

    /// The value stored under `key`.
    pub fn get(&self, key: &str) -> (r: Option<&V>)
        ensures
            match r {
                Some(v) => self@.contains_key(key@) && self@[key@] == v@,
                None => !self@.contains_key(key@),
            },
    {
        proof {
            use_type_invariant(self);
            lemma_owned_dom(self.entries@, key@);
        }
        match self.position(key) {
            Some(k) => {
                proof {
                    lemma_owned_index(self.entries@, k as int);
                }
                Some(&self.entries[k].1)
            },
            None => None,
        }
    }

    /// Whether `key` is present.
    pub fn contains_key(&self, key: &str) -> (r: bool)
        ensures
            r == self@.contains_key(key@),
    {
        self.get(key).is_some()
    }

    /// Store `value` under `key`, replacing any previous value.
    pub fn insert(&mut self, key: String, value: V)
        ensures
            final(self)@ == old(self)@.insert(key@, value@),
            owned_distinct(final(self).entry_list()),
            final(self).entry_list().len() == old(self).entry_list().len()
                || final(self).entry_list().len() == old(self).entry_list().len() + 1,
            forall|i: int| 0 <= i < final(self).entry_list().len() ==> #[trigger] final(self).entry_list()[i] == (key, value)
                || (i < old(self).entry_list().len() && final(self).entry_list()[i] == old(self).entry_list()[i]),
    {
        proof {
            use_type_invariant(&*self);
        }
        let pos = self.position(key.as_str());
        let ghost before = self.entries@;
        let entry = (key, value);
        let mut entries: Vec<(String, V)> = Vec::new();
        std::mem::swap(&mut entries, &mut self.entries);
        match pos {
            Some(k) => {
                proof {
                    lemma_owned_replace(before, k as int, entry);
                }
                entries.set(k, entry);
            },
            None => {
                proof {
                    lemma_owned_push(before, entry);
                }
                entries.push(entry);
            },
        }
        self.entries = entries;
    }

    /// The keys, each once, in insertion order.
    pub fn keys(&self) -> (r: Vec<String>)
        ensures
            r@.len() == self@.dom().len(),
            forall|i: int| 0 <= i < r@.len() ==> self@.contains_key(#[trigger] r@[i]@),
            forall|i: int, j: int| 0 <= i < j < r@.len() ==> r@[i]@ != r@[j]@,
    {
        proof {
            use_type_invariant(self);
            lemma_owned_len(self.entries@);
        }
        let mut out: Vec<String> = Vec::new();
        let mut i: usize = 0;
        while i < self.entries.len()
            invariant
                i <= self.entries@.len(),
                owned_distinct(self.entries@),
                out@.len() == i,
                forall|k: int| 0 <= k < i ==> #[trigger] out@[k]@ == self.entries@[k].0@,
            decreases self.entries.len() - i,
        {
            out.push(self.entries[i].0.clone());
            i = i + 1;
        }
        proof {
            assert forall|k: int| 0 <= k < out@.len() implies self@.contains_key(#[trigger] out@[k]@) by {
                lemma_owned_dom(self.entries@, out@[k]@);
            }
        }
        out
    }

    /// The map view is the one the entry list stands for.
    pub proof fn lemma_entry_list(&self)
        ensures
            owned_view(self.entry_list()) == self@,
    {
    }

    /// The entries, each key once, in insertion order.
    pub fn entries(&self) -> (r: &Vec<(String, V)>)
        ensures
            r@ == self.entry_list(),
            owned_view(r@) == self@,
            owned_distinct(r@),
    {
        proof {
            use_type_invariant(self);
        }
        &self.entries
    }
}

proof fn lemma_owned_remove<V: View>(entries: Seq<(String, V)>, k: int)
    requires
        owned_distinct(entries),
        0 <= k < entries.len(),
    ensures
        owned_distinct(entries.remove(k)),
        owned_view(entries.remove(k)) == owned_view(entries).remove(entries[k].0@),
{
    let e2 = entries.remove(k);
    let key = entries[k].0@;
    assert forall|a: int, b: int| 0 <= a < b < e2.len() implies e2[a].0@ != e2[b].0@ by {
        let a0 = if a < k { a } else { a + 1 };
        let b0 = if b < k { b } else { b + 1 };
        assert(e2[a] == entries[a0]);
        assert(e2[b] == entries[b0]);
    }
    let m1 = owned_view(e2);
    let m2 = owned_view(entries).remove(key);
    assert forall|x: Seq<char>| m1.contains_key(x) <==> m2.contains_key(x) by {
        lemma_owned_dom(e2, x);
        lemma_owned_dom(entries, x);
        if m1.contains_key(x) {
            let j = choose|j: int| 0 <= j < e2.len() && e2[j].0@ == x;
            let j0 = if j < k { j } else { j + 1 };
            assert(e2[j] == entries[j0]);
        }
        if m2.contains_key(x) {
            let j = choose|j: int| 0 <= j < entries.len() && entries[j].0@ == x;
            assert(j != k);
            let j2 = if j < k { j } else { j - 1 };
            assert(e2[j2] == entries[j]);
        }
    }
    assert forall|x: Seq<char>| m1.contains_key(x) implies m1[x] == m2[x] by {
        lemma_owned_dom(e2, x);
        let j = choose|j: int| 0 <= j < e2.len() && e2[j].0@ == x;
        let j0 = if j < k { j } else { j + 1 };
        assert(e2[j] == entries[j0]);
        lemma_owned_index(e2, j);
        lemma_owned_index(entries, j0);
    }
    assert(m1 =~= m2);
}

impl<V: View> StringMap<V> {
    /// Remove `key` (if present).
    pub fn remove(&mut self, key: &str)
        ensures
            final(self)@ == old(self)@.remove(key@),
    {
        proof {
            use_type_invariant(&*self);
            lemma_owned_dom(self.entries@, key@);
        }
        match self.position(key) {
            Some(k) => {
                let ghost before = self.entries@;
                proof {
                    lemma_owned_remove(before, k as int);
                }
                let mut entries: Vec<(String, V)> = Vec::new();
                std::mem::swap(&mut entries, &mut self.entries);
                let _ = entries.remove(k);
                self.entries = entries;
            },
            None => {
                proof {
                    assert(self@.remove(key@) =~= self@);
                }
            },
        }
    }

    /// Remove every entry.
    pub fn clear(&mut self)
        ensures
            final(self)@ == Map::<Seq<char>, V::V>::empty(),
    {
        self.entries = Vec::new();
    }

    /// Number of entries.
    pub fn len(&self) -> (r: usize)
        ensures
            r == self@.dom().len(),
    {
        proof {
            use_type_invariant(self);
            lemma_owned_len(self.entries@);
        }
        self.entries.len()
    }
}

} // verus!
