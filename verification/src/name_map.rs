//! A map from names to values, kept as a vector of distinct-keyed entries.
use vstd::prelude::*;
use crate::text::str_eq;

verus! {

/// The map that a list of entries stands for: later entries win.
pub open spec fn map_of<V>(s: Seq<(String, V)>) -> Map<Seq<char>, V>
    decreases s.len(),
{
    if s.len() == 0 {
        Map::empty()
    } else {
        map_of(s.drop_last()).insert(s.last().0@, s.last().1)
    }
}

/// No two entries have the same key.
pub open spec fn keys_distinct<V>(s: Seq<(String, V)>) -> bool {
    forall|i: int, j: int| 0 <= i < j < s.len() ==> #[trigger] s[i].0@ != #[trigger] s[j].0@
}

/// Entry `i` gives the value of its key, and a key without an entry is absent.
pub proof fn lemma_map_of_index<V>(s: Seq<(String, V)>)
    requires
        keys_distinct(s),
    ensures
        forall|i: int|
            0 <= i < s.len() ==> map_of(s).contains_key(#[trigger] s[i].0@) && map_of(s)[s[i].0@]
                == s[i].1,
        forall|k: Seq<char>|
            #[trigger] map_of(s).contains_key(k) ==> exists|i: int| 0 <= i < s.len() && s[i].0@ == k,
        map_of(s).dom().finite(),
    decreases s.len(),
{
    if s.len() > 0 {
        let t = s.drop_last();
        assert(keys_distinct(t));
        lemma_map_of_index(t);
        assert forall|i: int| 0 <= i < s.len() implies map_of(s).contains_key(#[trigger] s[i].0@)
            && map_of(s)[s[i].0@] == s[i].1 by {
            if i < s.len() - 1 {
                assert(t[i] == s[i]);
                assert(s[i].0@ != s[s.len() - 1].0@);
            }
        }
        assert forall|k: Seq<char>| #[trigger] map_of(s).contains_key(k) implies exists|i: int|
            0 <= i < s.len() && s[i].0@ == k by {
            if k != s.last().0@ {
                let i = choose|i: int| 0 <= i < t.len() && t[i].0@ == k;
                assert(s[i] == t[i]);
            } else {
                assert(s[s.len() - 1].0@ == k);
            }
        }
    }
}

/// Replacing the value of entry `i` updates its key in the map.
pub proof fn lemma_map_of_update<V>(s: Seq<(String, V)>, i: int, e: (String, V))
    requires
        keys_distinct(s),
        0 <= i < s.len(),
        e.0@ == s[i].0@,
    ensures
        map_of(s.update(i, e)) == map_of(s).insert(e.0@, e.1),
        keys_distinct(s.update(i, e)),
    decreases s.len(),
{
    let u = s.update(i, e);
    assert(keys_distinct(u)) by {
        assert forall|a: int, b: int| 0 <= a < b < u.len() implies #[trigger] u[a].0@
            != #[trigger] u[b].0@ by {
            assert(s[a].0@ != s[b].0@);
        }
    }
    if i == s.len() - 1 {
        assert(u.drop_last() =~= s.drop_last());
        assert(map_of(u) =~= map_of(s).insert(e.0@, e.1));
    } else {
        let t = s.drop_last();
        assert(keys_distinct(t));
        lemma_map_of_update(t, i, e);
        assert(u.drop_last() =~= t.update(i, e));
        assert(s.last().0@ != e.0@) by {
            assert(s[i].0@ != s[s.len() - 1].0@);
        }
        assert(map_of(u) =~= map_of(s).insert(e.0@, e.1));
    }
}

/// Removing entry `i` removes its key from the map.
pub proof fn lemma_map_of_remove<V>(s: Seq<(String, V)>, i: int)
    requires
        keys_distinct(s),
        0 <= i < s.len(),
    ensures
        map_of(s.remove(i)) == map_of(s).remove(s[i].0@),
        keys_distinct(s.remove(i)),
    decreases s.len(),
{
    let u = s.remove(i);
    assert(keys_distinct(u)) by {
        assert forall|a: int, b: int| 0 <= a < b < u.len() implies #[trigger] u[a].0@
            != #[trigger] u[b].0@ by {
            let a2 = if a < i { a } else { a + 1 };
            let b2 = if b < i { b } else { b + 1 };
            assert(u[a] == s[a2] && u[b] == s[b2]);
        }
    }
    lemma_map_of_index(s);
    if i == s.len() - 1 {
        assert(u =~= s.drop_last());
        let t = s.drop_last();
        assert(keys_distinct(t));
        lemma_map_of_index(t);
        assert forall|j: int| 0 <= j < t.len() implies t[j].0@ != s[i].0@ by {
            assert(t[j] == s[j]);
        }
        assert(!map_of(t).contains_key(s[i].0@));
        assert(map_of(u) =~= map_of(s).remove(s[i].0@));
    } else {
        let t = s.drop_last();
        assert(keys_distinct(t));
        lemma_map_of_remove(t, i);
        assert(u.drop_last() =~= t.remove(i));
        assert(u.last() == s.last());
        assert(s.last().0@ != s[i].0@) by {
            assert(s[s.len() - 1].0@ != s[i].0@);
        }
        assert(map_of(u) =~= map_of(s).remove(s[i].0@));
    }
}

/// A map from names to values.
pub struct NameMap<V> {
    entries: Vec<(String, V)>,
}

impl<V> View for NameMap<V> {
    type V = Map<Seq<char>, V>;

    closed spec fn view(&self) -> Map<Seq<char>, V> {
        map_of(self.entries@)
    }
}

impl<V> NameMap<V> {
    /// The map is well formed: its keys are distinct.
    pub closed spec fn wf(&self) -> bool {
        keys_distinct(self.entries@)
    }

    /// An empty map.
    pub fn new() -> (r: Self)
        ensures
            r.wf(),
            r@ == Map::<Seq<char>, V>::empty(),
    {
        NameMap { entries: Vec::new() }
    }

    /// The position of `key`'s entry.
    fn position(&self, key: &str) -> (r: Option<usize>)
        requires
            self.wf(),
        ensures
            match r {
                Some(i) => i < self.entries@.len() && self.entries@[i as int].0@ == key@,
                None => forall|i: int|
                    0 <= i < self.entries@.len() ==> self.entries@[i].0@ != key@,
            },
    {
        let mut i: usize = 0;
        while i < self.entries.len()
            invariant
                i <= self.entries@.len(),
                forall|j: int| 0 <= j < i ==> self.entries@[j].0@ != key@,
            decreases self.entries@.len() - i,
        {
            if str_eq(self.entries[i].0.as_str(), key) {
                return Some(i);
            }
            i = i + 1;
        }
        None
    }

    /// Whether `key` has a value.
    pub fn contains_key(&self, key: &str) -> (r: bool)
        requires
            self.wf(),
        ensures
            r == self@.contains_key(key@),
    {
        proof {
            lemma_map_of_index(self.entries@);
        }
        self.position(key).is_some()
    }

    /// The value of `key`, where it has one.
    pub fn get(&self, key: &str) -> (r: Option<&V>)
        requires
            self.wf(),
        ensures
            match r {
                Some(v) => self@.contains_key(key@) && *v == self@[key@],
                None => !self@.contains_key(key@),
            },
    {
        proof {
            lemma_map_of_index(self.entries@);
        }
        match self.position(key) {
            Some(i) => Some(&self.entries[i].1),
            None => None,
        }
    }

    /// Removes `key`, giving back its value where it had one.
    pub fn remove(&mut self, key: &str) -> (r: Option<V>)
        requires
            old(self).wf(),
        ensures
            final(self).wf(),
            final(self)@ == old(self)@.remove(key@),
            r == (if old(self)@.contains_key(key@) { Some(old(self)@[key@]) } else { None::<V> }),
    {
        proof {
            lemma_map_of_index(self.entries@);
        }
        match self.position(key) {
            Some(i) => {
                proof {
                    lemma_map_of_remove(self.entries@, i as int);
                }
                let (_, v) = self.entries.remove(i);
                Some(v)
            },
            None => {
                assert(old(self)@.remove(key@) =~= old(self)@);
                None
            },
        }
    }

    /// The keys, each once, in no particular order.
    pub fn keys(&self) -> (r: Vec<String>)
        requires
            self.wf(),
        ensures
            forall|k: Seq<char>| self@.contains_key(k) <==> exists|i: int| 0 <= i < r@.len() && #[trigger] r@[i]@ == k,
            forall|i: int, j: int| 0 <= i < j < r@.len() ==> #[trigger] r@[i]@ != #[trigger] r@[j]@,
    {
        proof {
            lemma_map_of_index(self.entries@);
        }
        let mut r: Vec<String> = Vec::new();
        let mut i: usize = 0;
        while i < self.entries.len()
            invariant
                i <= self.entries@.len(),
                r@.len() == i,
                forall|j: int| 0 <= j < i ==> #[trigger] r@[j]@ == self.entries@[j].0@,
            decreases self.entries@.len() - i,
        {
            r.push(self.entries[i].0.clone());
            i = i + 1;
        }
        assert forall|k: Seq<char>| self@.contains_key(k) implies exists|i: int| 0 <= i < r@.len() && #[trigger] r@[i]@ == k by {
            let i = choose|i: int| 0 <= i < self.entries@.len() && self.entries@[i].0@ == k;
            assert(r@[i]@ == k);
        }
        assert forall|k: Seq<char>| (exists|i: int| 0 <= i < r@.len() && #[trigger] r@[i]@ == k) implies self@.contains_key(k) by {
            let i = choose|i: int| 0 <= i < r@.len() && #[trigger] r@[i]@ == k;
            assert(self.entries@[i].0@ == k);
        }
        r
    }

    /// Sets the value of `key`, replacing any value it had.
    pub fn insert(&mut self, key: String, value: V)
        requires
            old(self).wf(),
        ensures
            final(self).wf(),
            final(self)@ == old(self)@.insert(key@, value),
    {
        match self.position(key.as_str()) {
            Some(i) => {
                proof {
                    lemma_map_of_update(self.entries@, i as int, (key, value));
                }
                self.entries.set(i, (key, value));
            },
            None => {
                assert(keys_distinct(self.entries@.push((key, value))));
                assert(self.entries@.push((key, value)).drop_last() =~= self.entries@);
                self.entries.push((key, value));
            },
        }
    }
}

} // verus!
