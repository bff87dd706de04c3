//! Echo tracker: remembers recently pushed `(table, id)` pairs so the realtime subscriber can
//! suppress the server's rebound events for our own writes. Time is read by the caller and
//! handed in as milliseconds on a monotonic clock.

use vstd::prelude::*;
use crate::polybase::contract::{echo_tracker_key, ECHO_EXPIRY_WINDOW_SECS};
use crate::polybase::string_map::StringMap;

verus! {

/// The tracker key of `(table, id)`.
pub open spec fn echo_key(table: Seq<char>, entity_id: Seq<char>) -> Seq<char> {
    table + seq![':'] + entity_id
}

/// The key names the table, then `:`, then the id; so two tables never share the key of one id,
/// and two ids never share the key of one table.
pub proof fn lemma_echo_key_separates(t1: Seq<char>, t2: Seq<char>, id1: Seq<char>, id2: Seq<char>)
    ensures
        echo_key(t1, id1) == t1 + seq![':'] + id1,
        echo_key(t1, id1).len() == t1.len() + 1 + id1.len(),
        t1 != t2 ==> echo_key(t1, id1) != echo_key(t2, id1),
        id1 != id2 ==> echo_key(t1, id1) != echo_key(t1, id2),
{
    let k1 = echo_key(t1, id1);
    if t1 != t2 {
        let k2 = echo_key(t2, id1);
        if t1.len() == t2.len() {
            assert(!(t1 =~= t2));
            let i = choose|i: int| 0 <= i < t1.len() && t1[i] != t2[i];
            assert(k1[i] == t1[i] && k2[i] == t2[i]);
        } else {
            assert(k1.len() != k2.len());
        }
        assert(k1 != k2);
    }
    if id1 != id2 {
        let k2 = echo_key(t1, id2);
        if id1.len() == id2.len() {
            assert(!(id1 =~= id2));
            let i = choose|i: int| 0 <= i < id1.len() && id1[i] != id2[i];
            assert(k1[t1.len() + 1 + i] == id1[i] && k2[t1.len() + 1 + i] == id2[i]);
        } else {
            assert(k1.len() != k2.len());
        }
        assert(k1 != k2);
    }
}

/// Marking `(table, id)` leaves the mark of the same id in every other table as it was: a
/// change that another device made to another table is never taken for an echo of this push.
pub proof fn lemma_mark_is_per_table(marks: Map<Seq<char>, u64>, table: Seq<char>, other: Seq<char>, entity_id: Seq<char>, now: u64)
    requires
        table != other,
    ensures
        marks.insert(echo_key(table, entity_id), now).contains_key(echo_key(other, entity_id))
            == marks.contains_key(echo_key(other, entity_id)),
        marks.insert(echo_key(table, entity_id), now).contains_key(echo_key(other, entity_id)) ==>
            marks.insert(echo_key(table, entity_id), now)[echo_key(other, entity_id)]
                == marks[echo_key(other, entity_id)],
{
    lemma_echo_key_separates(table, other, entity_id, entity_id);
}

/// A mark made at `marked` is still fresh at `now`: less than `window` has elapsed (a clock
/// reading before the mark counts as no time elapsed).
pub open spec fn fresh(marked: u64, now: u64, window: u64) -> bool {
    (if now >= marked { now - marked } else { 0 }) < window
}

/// A lookup of the pair just marked sees the mark until the window has elapsed since it was
/// made, and not from then on.
pub proof fn lemma_mark_seen_within_window(marks: Map<Seq<char>, u64>, table: Seq<char>, entity_id: Seq<char>, marked: u64, now: u64, window: u64)
    requires
        marked <= now,
    ensures
        ({
            let key = echo_key(table, entity_id);
            let after = marks.insert(key, marked);
            (after.contains_key(key) && fresh(after[key], now, window)) == (now < marked + window)
        }),
{
}

/// Recently pushed `(table, id)` keys and when they were pushed.
pub struct EchoTracker {
    marks: StringMap<u64>,
    window_millis: u64,
}

impl EchoTracker {
    /// When each key was last marked.
    pub closed spec fn marks(&self) -> Map<Seq<char>, u64> {
        self.marks@
    }

    /// The suppression window in milliseconds.
    pub closed spec fn window(&self) -> u64 {
        self.window_millis
    }

    /// A tracker with the contract default window (5 seconds).
    pub fn with_default_window() -> (r: Self)
        ensures
            r.marks() == Map::<Seq<char>, u64>::empty(),
            r.window() == ECHO_EXPIRY_WINDOW_SECS * 1000,
    {
        Self::with_window(ECHO_EXPIRY_WINDOW_SECS * 1000)
    }

    /// A tracker with a custom window in milliseconds.
    pub fn with_window(window_millis: u64) -> (r: Self)
        ensures
            r.marks() == Map::<Seq<char>, u64>::empty(),
            r.window() == window_millis,
    {
        EchoTracker { marks: StringMap::new(), window_millis }
    }

    /// Mark `(table, id)` as pushed at `now_millis`. Called before the write is awaited, so
    /// the realtime echo that may arrive concurrently is suppressed.
    pub fn mark_pushed(&mut self, table: &str, entity_id: &str, now_millis: u64)
        ensures
            final(self).marks() == old(self).marks().insert(echo_key(table@, entity_id@), now_millis),
            final(self).window() == old(self).window(),
    {
        let key = echo_tracker_key(table, entity_id);
        self.marks.insert(key, now_millis);
    }

    /// Whether `(table, id)` was pushed within the window before `now_millis`. An expired mark
    /// is dropped.
    pub fn was_recently_pushed(&mut self, table: &str, entity_id: &str, now_millis: u64) -> (r: bool)
        ensures
            ({
                let key = echo_key(table@, entity_id@);
                &&& r == (old(self).marks().contains_key(key) && fresh(old(self).marks()[key], now_millis, old(self).window()))
                &&& final(self).marks() == if old(self).marks().contains_key(key) && !r {
                    old(self).marks().remove(key)
                } else {
                    old(self).marks()
                }
                &&& final(self).window() == old(self).window()
            }),
    {
        let key = echo_tracker_key(table, entity_id);
        let found = match self.marks.get(key.as_str()) {
            Some(when) => Some(*when),
            None => None,
        };
        match found {
            Some(when) => {
                let elapsed = if now_millis >= when { now_millis - when } else { 0 };
                if elapsed < self.window_millis {
                    true
                } else {
                    self.marks.remove(key.as_str());
                    false
                }
            },
            None => false,
        }
    }

    /// Clear all marks (sign-out / repair flows).
    pub fn clear(&mut self)
        ensures
            final(self).marks() == Map::<Seq<char>, u64>::empty(),
            final(self).window() == old(self).window(),
    {
        self.marks.clear();
    }

    /// Drop every mark that is no longer fresh at `now_millis`.
    pub fn vacuum(&mut self, now_millis: u64)
        ensures
            final(self).marks() == old(self).marks().restrict(
                old(self).marks().dom().filter(|k: Seq<char>| fresh(old(self).marks()[k], now_millis, old(self).window())),
            ),
            final(self).window() == old(self).window(),
    {
        let ghost before = self.marks@;
        let window = self.window_millis;
        let mut kept: StringMap<u64> = StringMap::new();
        let entries = self.marks.entries();
        proof {
            self.marks.lemma_entry_list();
        }
        let ghost es = entries@;
        let mut i: usize = 0;
        while i < entries.len()
            invariant
                i <= es.len(),
                es == entries@,
                crate::polybase::string_map::owned_distinct(es),
                crate::polybase::string_map::owned_view(es) == before,
                kept@ == before.restrict(
                    Set::new(|k: Seq<char>| exists|j: int| 0 <= j < i && #[trigger] es[j].0@ == k)
                        .filter(|k: Seq<char>| fresh(before[k], now_millis, window)),
                ),
            decreases es.len() - i,
        {
            let (k, t) = (&entries[i].0, entries[i].1);
            proof {
                crate::polybase::string_map::lemma_owned_index(es, i as int);
            }
            let ghost prev = kept@;
            let elapsed = if now_millis >= t { now_millis - t } else { 0 };
            if elapsed < window {
                kept.insert(k.clone(), t);
            }
            proof {
                let s_old = Set::new(|x: Seq<char>| exists|j: int| 0 <= j < i && #[trigger] es[j].0@ == x)
                    .filter(|x: Seq<char>| fresh(before[x], now_millis, window));
                let s_new = Set::new(|x: Seq<char>| exists|j: int| 0 <= j < i + 1 && #[trigger] es[j].0@ == x)
                    .filter(|x: Seq<char>| fresh(before[x], now_millis, window));
                assert forall|x: Seq<char>| s_new.contains(x) <==> (s_old.contains(x) || (x == es[i as int].0@ && fresh(before[x], now_millis, window))) by {
                    if s_new.contains(x) {
                        let j = choose|j: int| 0 <= j < i + 1 && #[trigger] es[j].0@ == x;
                        if j < i {
                            assert(s_old.contains(x));
                        }
                    }
                    if s_old.contains(x) {
                        let j = choose|j: int| 0 <= j < i && #[trigger] es[j].0@ == x;
                        assert(es[j].0@ == x);
                    }
                    if x == es[i as int].0@ {
                        assert(es[i as int].0@ == x);
                    }
                }
                assert(kept@ =~= before.restrict(s_new));
            }
            i = i + 1;
        }
        proof {
            let s_all = Set::new(|k: Seq<char>| exists|j: int| 0 <= j < es.len() && #[trigger] es[j].0@ == k);
            assert forall|k: Seq<char>| s_all.contains(k) <==> before.dom().contains(k) by {
                crate::polybase::string_map::lemma_owned_dom(es, k);
            }
            assert(s_all =~= before.dom());
        }
        self.marks = kept;
    }
}

impl Default for EchoTracker {
    fn default() -> (r: Self)
        ensures
            r.marks() == Map::<Seq<char>, u64>::empty(),
            r.window() == ECHO_EXPIRY_WINDOW_SECS * 1000,
    {
        Self::with_default_window()
    }
}

} // verus!
