//! JSON-object records (one row keyed by column name), as the registry maps and serialises
//! them. String values are kept apart from every other JSON value, which is held as its
//! JSON text: the registry only ever reads, rewrites or encrypts string values.

use vstd::prelude::*;
use crate::text::str_eq;

verus! {

/// One field value of a record.
#[derive(Debug, PartialEq, Eq)]
pub enum FieldValue {
    /// A JSON string.
    Text(String),
    /// Any other JSON value (number, bool, null, array, object), as its JSON text.
    Json(String),
}

/// The mathematical form of a [`FieldValue`].
pub enum FieldView {
    /// A JSON string.
    Text(Seq<char>),
    /// Any other JSON value, as its JSON text.
    Json(Seq<char>),
}

impl View for FieldValue {
    type V = FieldView;

    open spec fn view(&self) -> FieldView {
        match self {
            FieldValue::Text(s) => FieldView::Text(s@),
            FieldValue::Json(s) => FieldView::Json(s@),
        }
    }
}

impl FieldValue {
    /// A copy of this value.
    pub fn duplicate(&self) -> (r: Self)
        ensures
            r@ == self@,
    {
        match self {
            FieldValue::Text(s) => FieldValue::Text(s.clone()),
            FieldValue::Json(s) => FieldValue::Json(s.clone()),
        }
    }
}

/// The map a list of entries stands for: a later entry of the same key replaces an earlier one.
pub open spec fn entries_view(entries: Seq<(String, FieldValue)>) -> Map<Seq<char>, FieldView>
    decreases entries.len(),
{
    if entries.len() == 0 {
        Map::empty()
    } else {
        entries_view(entries.drop_last()).insert(entries.last().0@, entries.last().1@)
    }
}

/// No two entries share a key.
pub open spec fn distinct_keys(entries: Seq<(String, FieldValue)>) -> bool {
    forall|i: int, j: int| 0 <= i < j < entries.len() ==> entries[i].0@ != entries[j].0@
}

/// A JSON object: field values keyed by name, each key at most once.
#[derive(Debug)]
pub struct Record {
    entries: Vec<(String, FieldValue)>,
}

proof fn lemma_view_dom(entries: Seq<(String, FieldValue)>, key: Seq<char>)
    ensures
        entries_view(entries).contains_key(key) <==> exists|k: int| 0 <= k < entries.len() && entries[k].0@ == key,
    decreases entries.len(),
{
    if entries.len() > 0 {
        lemma_view_dom(entries.drop_last(), key);
        if entries_view(entries).contains_key(key) && entries.last().0@ != key {
            let k = choose|k: int| 0 <= k < entries.len() - 1 && entries.drop_last()[k].0@ == key;
            assert(entries[k].0@ == key);
        }
        if exists|k: int| 0 <= k < entries.len() && entries[k].0@ == key {
            let k = choose|k: int| 0 <= k < entries.len() && entries[k].0@ == key;
            if k < entries.len() - 1 {
                assert(entries.drop_last()[k].0@ == key);
            }
        }
    }
}

proof fn lemma_view_index(entries: Seq<(String, FieldValue)>, k: int)
    requires
        distinct_keys(entries),
        0 <= k < entries.len(),
    ensures
        entries_view(entries).contains_key(entries[k].0@),
        entries_view(entries)[entries[k].0@] == entries[k].1@,
    decreases entries.len(),
{
    if k < entries.len() - 1 {
        lemma_view_index(entries.drop_last(), k);
    }
}

proof fn lemma_view_len(entries: Seq<(String, FieldValue)>)
    requires
        distinct_keys(entries),
    ensures
        entries_view(entries).dom().finite(),
        entries_view(entries).dom().len() == entries.len(),
    decreases entries.len(),
{
    if entries.len() > 0 {
        let prev = entries.drop_last();
        lemma_view_len(prev);
        lemma_view_dom(prev, entries.last().0@);
    }
}

proof fn lemma_view_push(entries: Seq<(String, FieldValue)>, e: (String, FieldValue))
    requires
        distinct_keys(entries),
        forall|j: int| 0 <= j < entries.len() ==> entries[j].0@ != e.0@,
    ensures
        distinct_keys(entries.push(e)),
        entries_view(entries.push(e)) == entries_view(entries).insert(e.0@, e.1@),
{
    assert(entries.push(e).drop_last() =~= entries);
}

proof fn lemma_view_replace(entries: Seq<(String, FieldValue)>, k: int, e: (String, FieldValue))
    requires
        distinct_keys(entries),
        0 <= k < entries.len(),
        entries[k].0@ == e.0@,
    ensures
        distinct_keys(entries.update(k, e)),
        entries_view(entries.update(k, e)) == entries_view(entries).insert(e.0@, e.1@),
{
    let e2 = entries.update(k, e);
    assert(distinct_keys(e2));
    let m1 = entries_view(e2);
    let m2 = entries_view(entries).insert(e.0@, e.1@);
    assert forall|key: Seq<char>| m1.contains_key(key) <==> m2.contains_key(key) by {
        lemma_view_dom(e2, key);
        lemma_view_dom(entries, key);
        assert(e2[k].0@ == e.0@);
        if m2.contains_key(key) && key != e.0@ {
            let j = choose|j: int| 0 <= j < entries.len() && entries[j].0@ == key;
            assert(e2[j].0@ == key);
        }
        if m1.contains_key(key) {
            let j = choose|j: int| 0 <= j < e2.len() && e2[j].0@ == key;
            if j != k {
                assert(entries[j].0@ == key);
            }
        }
    }
    assert forall|key: Seq<char>| m1.contains_key(key) implies m1[key] == m2[key] by {
        lemma_view_dom(e2, key);
        let j = choose|j: int| 0 <= j < e2.len() && e2[j].0@ == key;
        lemma_view_index(e2, j);
        if j != k {
            lemma_view_index(entries, j);
        }
    }
    assert(m1 =~= m2);
}

impl View for Record {
    type V = Map<Seq<char>, FieldView>;

    closed spec fn view(&self) -> Map<Seq<char>, FieldView> {
        entries_view(self.entries@)
    }
}

impl Record {
    #[verifier::type_invariant]
    spec fn keys_distinct(&self) -> bool {
        distinct_keys(self.entries@)
    }

    /// The empty record.
    pub fn new() -> (r: Self)
        ensures
            r@ == Map::<Seq<char>, FieldView>::empty(),
    {
        Record { entries: Vec::new() }
    }

    fn position(&self, key: &str) -> (r: Option<usize>)
        ensures
            match r {
                Some(k) => k < self.entries@.len() && self.entries@[k as int].0@ == key@,
                None => forall|j: int| 0 <= j < self.entries@.len() ==> self.entries@[j].0@ != key@,
            },
    {
        let mut i: usize = 0;
        while i < self.entries.len()
            invariant
                i <= self.entries@.len(),
                forall|j: int| 0 <= j < i ==> self.entries@[j].0@ != key@,
            decreases self.entries.len() - i,
        {
            if str_eq(self.entries[i].0.as_str(), key) {
                return Some(i);
            }
            i = i + 1;
        }
        None
    }

    /// The value stored under `key`.
    pub fn get(&self, key: &str) -> (r: Option<&FieldValue>)
        ensures
            match r {
                Some(v) => self@.contains_key(key@) && self@[key@] == v@,
                None => !self@.contains_key(key@),
            },
    {
        proof {
            use_type_invariant(self);
            lemma_view_dom(self.entries@, key@);
        }
        match self.position(key) {
            Some(k) => {
                proof {
                    lemma_view_index(self.entries@, k as int);
                }
                Some(&self.entries[k].1)
            },
            None => None,
        }
    }

    /// Whether `key` is present.
    pub fn contains_key(&self, key: &str) -> (r: bool)
        ensures
            r == self@.contains_key(key@),
    {
        self.get(key).is_some()
    }

    /// Number of fields.
    pub fn len(&self) -> (r: usize)
        ensures
            r == self@.dom().len(),
    {
        proof {
            use_type_invariant(self);
            lemma_view_len(self.entries@);
        }
        self.entries.len()
    }

    /// Store `value` under `key`, replacing any previous value.
    pub fn insert(&mut self, key: &str, value: FieldValue)
        ensures
            final(self)@ == old(self)@.insert(key@, value@),
    {
        proof {
            use_type_invariant(&*self);
        }
        let pos = self.position(key);
        let ghost before = self.entries@;
        let entry = (key.to_owned(), value);
        match pos {
            Some(k) => {
                proof {
                    lemma_view_replace(before, k as int, entry);
                }
                let mut entries: Vec<(String, FieldValue)> = Vec::new();
                std::mem::swap(&mut entries, &mut self.entries);
                entries.set(k, entry);
                self.entries = entries;
            },
            None => {
                proof {
                    lemma_view_push(before, entry);
                }
                let mut entries: Vec<(String, FieldValue)> = Vec::new();
                std::mem::swap(&mut entries, &mut self.entries);
                entries.push(entry);
                self.entries = entries;
            },
        }
    }

    /// The fields, each key once, in insertion order.
    pub fn entries(&self) -> (r: &Vec<(String, FieldValue)>)
        ensures
            entries_view(r@) == self@,
            distinct_keys(r@),
    {
        proof {
            use_type_invariant(self);
        }
        &self.entries
    }

    /// A copy of this record.
    pub fn duplicate(&self) -> (r: Self)
        ensures
            r@ == self@,
    {
        proof {
            use_type_invariant(self);
        }
        let mut out: Vec<(String, FieldValue)> = Vec::new();
        let mut i: usize = 0;
        while i < self.entries.len()
            invariant
                i <= self.entries@.len(),
                distinct_keys(self.entries@),
                out@.len() == i,
                forall|k: int| 0 <= k < i ==> #[trigger] out@[k].0@ == self.entries@[k].0@ && out@[k].1@ == self.entries@[k].1@,
                entries_view(out@) == entries_view(self.entries@.take(i as int)),
            decreases self.entries.len() - i,
        {
            let e = (self.entries[i].0.clone(), self.entries[i].1.duplicate());
            proof {
                assert(self.entries@.take(i + 1).drop_last() =~= self.entries@.take(i as int));
                assert(out@.push(e).drop_last() =~= out@);
            }
            out.push(e);
            i = i + 1;
        }
        proof {
            assert(self.entries@.take(self.entries@.len() as int) =~= self.entries@);
            assert forall|a: int, b: int| 0 <= a < b < out@.len() implies out@[a].0@ != out@[b].0@ by {
                assert(self.entries@[a].0@ != self.entries@[b].0@);
            }
        }
        Record { entries: out }
    }
}

} // verus!
