//! The server's tables of live sessions and tasks: values kept under their
//! ids, looked up for each request, and taken out when cancelled.

use vstd::prelude::*;

use crate::assoc::{
    assoc_map, keys_distinct, lemma_assoc_at, lemma_assoc_dom, lemma_assoc_push, lemma_assoc_remove,
    lemma_assoc_update,
};
use crate::text::str_eq;

verus! {

struct Entry<T> {
    id: String,
    value: T,
}

/// Values kept under text ids, each id at most once.
pub struct Registry<T> {
    entries: Vec<Entry<T>>,
}

spec fn entry_pairs<T>(s: Seq<Entry<T>>) -> Seq<(Seq<char>, T)> {
    s.map_values(|e: Entry<T>| (e.id@, e.value))
}

proof fn lemma_entry_pairs<T>(s: Seq<Entry<T>>)
    ensures
        entry_pairs(s).len() == s.len(),
        forall|i: int| 0 <= i < s.len() ==> #[trigger] entry_pairs(s)[i] == (s[i].id@, s[i].value),
{
}

impl<T> View for Registry<T> {
    type V = Map<Seq<char>, T>;

    closed spec fn view(&self) -> Map<Seq<char>, T> {
        assoc_map(entry_pairs(self.entries@))
    }
}

impl<T> Registry<T> {
    /// The ids, in the order they were first kept.
    pub closed spec fn ids(&self) -> Seq<Seq<char>> {
        self.entries@.map_values(|e: Entry<T>| e.id@)
    }

    /// No id is kept twice.
    pub closed spec fn wf(&self) -> bool {
        keys_distinct(entry_pairs(self.entries@))
    }

    pub fn new() -> (r: Registry<T>)
        ensures
            r.wf(),
            r@ == Map::<Seq<char>, T>::empty(),
            r.ids() == Seq::<Seq<char>>::empty(),
    {
        let r = Registry { entries: Vec::new() };
        assert(entry_pairs(r.entries@) =~= Seq::empty());
        assert(r.ids() =~= Seq::<Seq<char>>::empty());
        r
    }

    fn position(&self, id: &str) -> (r: Option<usize>)
        ensures
            match r {
                Some(i) => i < self.entries@.len() && self.entries@[i as int].id@ == id@,
                None => forall|i: int| 0 <= i < self.entries@.len() ==> self.entries@[i].id@ != id@,
            },
    {
        let mut i: usize = 0;
        while i < self.entries.len()
            invariant
                i <= self.entries@.len(),
                forall|j: int| 0 <= j < i ==> self.entries@[j].id@ != id@,
            decreases self.entries@.len() - i,
        {
            if str_eq(self.entries[i].id.as_str(), id) {
                return Some(i);
            }
            i = i + 1;
        }
        None
    }

    /// Keeps `value` under `id`, in place of what was kept there.
    pub fn insert(&mut self, id: String, value: T)
        requires
            old(self).wf(),
        ensures
            final(self).wf(),
            final(self)@ == old(self)@.insert(id@, value),
            final(self).ids() == (if old(self)@.contains_key(id@) {
                old(self).ids()
            } else {
                old(self).ids().push(id@)
            }),
    {
        proof {
            lemma_entry_pairs(self.entries@);
        }
        let ghost before = self.entries@;
        let ghost key = id@;
        match self.position(id.as_str()) {
            Some(i) => {
                self.entries.set(i, Entry { id, value });
                proof {
                    lemma_assoc_dom(entry_pairs(before), key);
                    assert(entry_pairs(before)[i as int].0 == key);
                    assert(self.ids() =~= before.map_values(|e: Entry<T>| e.id@));
                    lemma_assoc_update(entry_pairs(before), i as int, value);
                    assert(entry_pairs(self.entries@) =~= entry_pairs(before).update(
                        i as int,
                        (entry_pairs(before)[i as int].0, value),
                    ));
                }
            },
            None => {
                self.entries.push(Entry { id, value });
                proof {
                    lemma_assoc_dom(entry_pairs(before), key);
                    assert(self.ids() =~= before.map_values(|e: Entry<T>| e.id@).push(key));
                    let s = entry_pairs(before);
                    lemma_assoc_push(s, (key, value));
                    assert(entry_pairs(self.entries@) =~= s.push((key, value)));
                    assert(keys_distinct(s.push((key, value))));
                }
            },
        }
    }

    /// The value kept under `id`, if any.
    pub fn get(&self, id: &str) -> (r: Option<&T>)
        requires
            self.wf(),
        ensures
            match r {
                Some(v) => self@.contains_key(id@) && *v == self@[id@],
                None => !self@.contains_key(id@),
            },
    {
        proof {
            lemma_entry_pairs(self.entries@);
        }
        match self.position(id) {
            Some(i) => {
                proof {
                    lemma_assoc_at(entry_pairs(self.entries@), i as int);
                }
                Some(&self.entries[i].value)
            },
            None => {
                proof {
                    lemma_assoc_dom(entry_pairs(self.entries@), id@);
                }
                None
            },
        }
    }

    /// Takes out the value kept under `id`, if any.
    pub fn remove(&mut self, id: &str) -> (r: Option<T>)
        requires
            old(self).wf(),
        ensures
            final(self).wf(),
            final(self)@ == old(self)@.remove(id@),
            old(self)@.contains_key(id@) ==> exists|i: int|
                0 <= i < old(self).ids().len() && old(self).ids()[i] == id@ && final(self).ids() == old(
                    self,
                ).ids().remove(i),
            !old(self)@.contains_key(id@) ==> final(self).ids() == old(self).ids(),
            match r {
                Some(v) => old(self)@.contains_key(id@) && v == old(self)@[id@],
                None => !old(self)@.contains_key(id@),
            },
    {
        proof {
            lemma_entry_pairs(self.entries@);
        }
        let ghost before = self.entries@;
        let ghost old_ids = self.ids();
        match self.position(id) {
            Some(i) => {
                proof {
                    lemma_assoc_at(entry_pairs(before), i as int);
                }
                let e = self.entries.remove(i);
                proof {
                    assert(self.ids() =~= old_ids.remove(i as int));
                    assert(old_ids[i as int] == id@);
                    lemma_assoc_remove(entry_pairs(before), i as int);
                    assert(entry_pairs(self.entries@) =~= entry_pairs(before).remove(i as int));
                }
                Some(e.value)
            },
            None => {
                proof {
                    lemma_assoc_dom(entry_pairs(before), id@);
                    assert(assoc_map(entry_pairs(before)).remove(id@) =~= assoc_map(entry_pairs(before)));
                }
                None
            },
        }
    }

    /// Whether a value is kept under `id`.
    pub fn contains(&self, id: &str) -> (r: bool)
        requires
            self.wf(),
        ensures
            r == self@.contains_key(id@),
    {
        self.get(id).is_some()
    }

    /// The kept values, in the order their ids were first kept.
    pub fn values(&self) -> (r: Vec<&T>)
        requires
            self.wf(),
        ensures
            forall|i: int| 0 <= i < r@.len() ==> #[trigger] keeps_value(self@, *r@[i]),
            r@.len() == self@.dom().len(),
            r@.len() == self.ids().len(),
            forall|i: int|
                0 <= i < r@.len() ==> self@.contains_key(#[trigger] self.ids()[i]) && *r@[i] == self@[self.ids()[i]],
    {
        proof {
            lemma_entry_pairs(self.entries@);
        }
        let mut out: Vec<&T> = Vec::new();
        let mut i: usize = 0;
        while i < self.entries.len()
            invariant
                self.wf(),
                i <= self.entries@.len(),
                out@.len() == i,
                forall|k: int| 0 <= k < i ==> *out@[k] == self.entries@[k].value,
            decreases self.entries@.len() - i,
        {
            out.push(&self.entries[i].value);
            i = i + 1;
        }
        proof {
            let s = entry_pairs(self.entries@);
            lemma_entry_pairs(self.entries@);
            assert forall|i: int| 0 <= i < out@.len() implies #[trigger] keeps_value(self@, *out@[i]) by {
                lemma_assoc_at(s, i);
                assert(s[i].0 == self.entries@[i].id@);
            }
            assert forall|i: int| 0 <= i < out@.len() implies self@.contains_key(#[trigger] self.ids()[i])
                && *out@[i] == self@[self.ids()[i]] by {
                lemma_assoc_at(s, i);
                assert(s[i].0 == self.entries@[i].id@);
                assert(self.ids()[i] == self.entries@[i].id@);
            }
            lemma_assoc_size(s);
        }
        out
    }
}

/// Some id keeps `v`.
pub open spec fn keeps_value<T>(m: Map<Seq<char>, T>, v: T) -> bool {
    exists|k: Seq<char>| m.contains_key(k) && m[k] == v
}

/// With distinct keys the map has one key per entry.
proof fn lemma_assoc_size<T>(s: Seq<(Seq<char>, T)>)
    requires
        keys_distinct(s),
    ensures
        assoc_map(s).dom().len() == s.len(),
        assoc_map(s).dom().finite(),
    decreases s.len(),
{
    if s.len() > 0 {
        let t = s.drop_last();
        assert(keys_distinct(t)) by {
            assert forall|a: int, b: int| 0 <= a < b < t.len() implies t[a].0 != t[b].0 by {
                assert(t[a] == s[a] && t[b] == s[b]);
            }
        }
        lemma_assoc_size(t);
        lemma_assoc_dom(t, s.last().0);
        if assoc_map(t).dom().contains(s.last().0) {
            let i = choose|i: int| 0 <= i < t.len() && t[i].0 == s.last().0;
            assert(t[i] == s[i]);
        }
    }
}

/// What the table keeps is what was last put under each id: a lookup right
/// after keeping a value finds it, keeping it leaves other ids alone, and a
/// removed id is no longer found.
pub proof fn lemma_registry_read_after_write<T>(m: Map<Seq<char>, T>, id: Seq<char>, other: Seq<char>, value: T)
    requires
        other != id,
    ensures
        m.insert(id, value).contains_key(id) && m.insert(id, value)[id] == value,
        m.insert(id, value).contains_key(other) == m.contains_key(other),
        m.contains_key(other) ==> m.insert(id, value)[other] == m[other],
        !m.remove(id).contains_key(id),
{
}

} // verus!
