//! Small association lists keyed by static names, with a map view: the registry's indexes.

use vstd::prelude::*;
use crate::text::str_eq;

verus! {

/// The map a list of entries stands for: a later entry of the same key replaces an earlier one.
pub open spec fn assoc_view<V: View>(entries: Seq<(&'static str, V)>) -> Map<Seq<char>, V::V>
    decreases entries.len(),
{
    if entries.len() == 0 {
        Map::empty()
    } else {
        assoc_view(entries.drop_last()).insert(entries.last().0@, entries.last().1@)
    }
}

/// No two entries share a key.
pub open spec fn assoc_distinct<V>(entries: Seq<(&'static str, V)>) -> bool {
    forall|i: int, j: int| 0 <= i < j < entries.len() ==> entries[i].0@ != entries[j].0@
}

pub proof fn lemma_assoc_dom<V: View>(entries: Seq<(&'static str, V)>, key: Seq<char>)
    ensures
        assoc_view(entries).contains_key(key) <==> exists|k: int| 0 <= k < entries.len() && entries[k].0@ == key,
    decreases entries.len(),
{
    if entries.len() > 0 {
        lemma_assoc_dom(entries.drop_last(), key);
        if assoc_view(entries).contains_key(key) && entries.last().0@ != key {
            let k = choose|k: int| 0 <= k < entries.len() - 1 && entries.drop_last()[k].0@ == key;
            assert(entries[k].0@ == key);
        }
        if exists|k: int| 0 <= k < entries.len() && entries[k].0@ == key {
            let k = choose|k: int| 0 <= k < entries.len() && entries[k].0@ == key;
            if k < entries.len() - 1 {
                assert(entries.drop_last()[k].0@ == key);
            }
        }
    }
}

pub proof fn lemma_assoc_index<V: View>(entries: Seq<(&'static str, V)>, k: int)
    requires
        assoc_distinct(entries),
        0 <= k < entries.len(),
    ensures
        assoc_view(entries).contains_key(entries[k].0@),
        assoc_view(entries)[entries[k].0@] == entries[k].1@,
    decreases entries.len(),
{
    if k < entries.len() - 1 {
        lemma_assoc_index(entries.drop_last(), k);
    }
}

pub proof fn lemma_assoc_len<V: View>(entries: Seq<(&'static str, V)>)
    requires
        assoc_distinct(entries),
    ensures
        assoc_view(entries).dom().finite(),
        assoc_view(entries).dom().len() == entries.len(),
    decreases entries.len(),
{
    if entries.len() > 0 {
        let prev = entries.drop_last();
        lemma_assoc_len(prev);
        lemma_assoc_dom(prev, entries.last().0@);
    }
}

pub proof fn lemma_assoc_push<V: View>(entries: Seq<(&'static str, V)>, e: (&'static str, V))
    requires
        assoc_distinct(entries),
        forall|j: int| 0 <= j < entries.len() ==> entries[j].0@ != e.0@,
    ensures
        assoc_distinct(entries.push(e)),
        assoc_view(entries.push(e)) == assoc_view(entries).insert(e.0@, e.1@),
{
    assert(entries.push(e).drop_last() =~= entries);
}

pub proof fn lemma_assoc_replace<V: View>(entries: Seq<(&'static str, V)>, k: int, e: (&'static str, V))
    requires
        assoc_distinct(entries),
        0 <= k < entries.len(),
        entries[k].0@ == e.0@,
    ensures
        assoc_distinct(entries.update(k, e)),
        assoc_view(entries.update(k, e)) == assoc_view(entries).insert(e.0@, e.1@),
{
    let e2 = entries.update(k, e);
    assert(assoc_distinct(e2));
    let m1 = assoc_view(e2);
    let m2 = assoc_view(entries).insert(e.0@, e.1@);
    assert forall|key: Seq<char>| m1.contains_key(key) <==> m2.contains_key(key) by {
        lemma_assoc_dom(e2, key);
        lemma_assoc_dom(entries, key);
        assert(e2[k].0@ == e.0@);
        if m2.contains_key(key) && key != e.0@ {
            let j = choose|j: int| 0 <= j < entries.len() && entries[j].0@ == key;
            assert(e2[j].0@ == key);
        }
        if m1.contains_key(key) {
            let j = choose|j: int| 0 <= j < e2.len() && e2[j].0@ == key;
            if j != k {
                assert(entries[j].0@ == key);
            }
        }
    }
    assert forall|key: Seq<char>| m1.contains_key(key) implies m1[key] == m2[key] by {
        lemma_assoc_dom(e2, key);
        let j = choose|j: int| 0 <= j < e2.len() && e2[j].0@ == key;
        lemma_assoc_index(e2, j);
        if j != k {
            lemma_assoc_index(entries, j);
        }
    }
    assert(m1 =~= m2);
}

/// A map from static names to values, each name at most once.
pub struct AssocList<V> {
    entries: Vec<(&'static str, V)>,
}

impl<V: View> View for AssocList<V> {
    type V = Map<Seq<char>, V::V>;

    closed spec fn view(&self) -> Map<Seq<char>, V::V> {
        assoc_view(self.entries@)
    }
}

impl<V> AssocList<V> {
    #[verifier::type_invariant]
    spec fn keys_distinct(&self) -> bool {
        assoc_distinct(self.entries@)
    }

    /// The entries in insertion order.
    pub closed spec fn entry_list(&self) -> Seq<(&'static str, V)> {
        self.entries@
    }
}

impl<V: View> AssocList<V> {
    /// The empty list.
    pub fn new() -> (r: Self)
        ensures
            r@ == Map::<Seq<char>, V::V>::empty(),
            r.entry_list().len() == 0,
    {
        AssocList { entries: Vec::new() }
    }

    fn position(&self, key: &str) -> (r: Option<usize>)
        ensures
            match r {
                Some(k) => k < self.entries@.len() && self.entries@[k as int].0@ == key@,
                None => forall|j: int| 0 <= j < self.entries@.len() ==> self.entries@[j].0@ != key@,
            },
    {
        let mut i: usize = 0;
        while i < self.entries.len()
            invariant
                i <= self.entries@.len(),
                forall|j: int| 0 <= j < i ==> self.entries@[j].0@ != key@,
            decreases self.entries.len() - i,
        {
            if str_eq(self.entries[i].0, key) {
                return Some(i);
            }
            i = i + 1;
        }
        None
    }

    /// The value stored under `key`.
    pub fn get(&self, key: &str) -> (r: Option<&V>)
        ensures
            match r {
                Some(v) => self@.contains_key(key@) && self@[key@] == v@,
                None => !self@.contains_key(key@),
            },
    {
        proof {
            use_type_invariant(self);
            lemma_assoc_dom(self.entries@, key@);
        }
        match self.position(key) {
            Some(k) => {
                proof {
                    lemma_assoc_index(self.entries@, k as int);
                }
                Some(&self.entries[k].1)
            },
            None => None,
        }
    }

    /// Whether `key` is present.
    pub fn contains_key(&self, key: &str) -> (r: bool)
        ensures
            r == self@.contains_key(key@),
    {
        self.get(key).is_some()
    }

    /// Store `value` under `key`, replacing any previous value.
    pub fn insert(&mut self, key: &'static str, value: V)
        ensures
            final(self)@ == old(self)@.insert(key@, value@),
            assoc_distinct(final(self).entry_list()),
            final(self).entry_list().len() == old(self).entry_list().len()
                || final(self).entry_list().len() == old(self).entry_list().len() + 1,
            forall|i: int| 0 <= i < final(self).entry_list().len() ==> #[trigger] final(self).entry_list()[i] == (key, value)
                || (i < old(self).entry_list().len() && final(self).entry_list()[i] == old(self).entry_list()[i]),
    {
        proof {
            use_type_invariant(&*self);
        }
        let pos = self.position(key);
        let ghost before = self.entries@;
        let entry = (key, value);
        let mut entries: Vec<(&'static str, V)> = Vec::new();
        std::mem::swap(&mut entries, &mut self.entries);
        match pos {
            Some(k) => {
                proof {
                    lemma_assoc_replace(before, k as int, entry);
                }
                entries.set(k, entry);
            },
            None => {
                proof {
                    lemma_assoc_push(before, entry);
                }
                entries.push(entry);
            },
        }
        self.entries = entries;
    }

    /// The keys, each once, in insertion order.
    pub fn keys(&self) -> (r: Vec<&'static str>)
        ensures
            r@.len() == self@.dom().len(),
            forall|i: int| 0 <= i < r@.len() ==> self@.contains_key(#[trigger] r@[i]@),
            forall|i: int, j: int| 0 <= i < j < r@.len() ==> r@[i]@ != r@[j]@,
    {
        proof {
            use_type_invariant(self);
            lemma_assoc_len(self.entries@);
        }
        let mut out: Vec<&'static str> = Vec::new();
        let mut i: usize = 0;
        while i < self.entries.len()
            invariant
                i <= self.entries@.len(),
                assoc_distinct(self.entries@),
                out@.len() == i,
                forall|k: int| 0 <= k < i ==> #[trigger] out@[k] == self.entries@[k].0,
            decreases self.entries.len() - i,
        {
            out.push(self.entries[i].0);
            i = i + 1;
        }
        proof {
            assert forall|k: int| 0 <= k < out@.len() implies self@.contains_key(#[trigger] out@[k]@) by {
                lemma_assoc_dom(self.entries@, out@[k]@);
            }
        }
        out
    }

    /// The map view is the one the entry list stands for.
    pub proof fn lemma_entry_list(&self)
        ensures
            assoc_view(self.entry_list()) == self@,
    {
    }

    /// The entries, each key once, in insertion order.
    pub fn entries(&self) -> (r: &Vec<(&'static str, V)>)
        ensures
            r@ == self.entry_list(),
            assoc_view(r@) == self@,
            assoc_distinct(r@),
    {
        proof {
            use_type_invariant(self);
        }
        &self.entries
    }
}

} // verus!
