//! A map keyed by strings, kept as a list of distinct keys in insertion order.
use vstd::prelude::*;
use crate::text::{copy_str, str_eq};

verus! {

/// The map that a list of entries with distinct keys stands for.
pub open spec fn to_map<V>(s: Seq<(String, V)>) -> Map<Seq<char>, V>
    decreases s.len(),
{
    if s.len() == 0 {
        Map::empty()
    } else {
        to_map(s.drop_last()).insert(s.last().0@, s.last().1)
    }
}

/// No two entries share a key.
pub open spec fn keys_distinct<V>(s: Seq<(String, V)>) -> bool {
    forall|i: int, j: int| 0 <= i < j < s.len() ==> s[i].0@ != s[j].0@
}

/// The keys of the entries, in order.
pub open spec fn keys_of<V>(s: Seq<(String, V)>) -> Seq<Seq<char>> {
    s.map_values(|e: (String, V)| e.0@)
}

/// Membership and lookup in `to_map(s)` follow the entries.
pub proof fn lemma_to_map<V>(s: Seq<(String, V)>)
    requires
        keys_distinct(s),
    ensures
        forall|k: Seq<char>| #[trigger] to_map(s).contains_key(k) <==> exists|i: int|
            0 <= i < s.len() && s[i].0@ == k,
        forall|i: int| 0 <= i < s.len() ==> to_map(s)[#[trigger] s[i].0@] == s[i].1,
    decreases s.len(),
{
    if s.len() > 0 {
        let t = s.drop_last();
        assert(keys_distinct(t));
        lemma_to_map(t);
        assert forall|k: Seq<char>| #[trigger] to_map(s).contains_key(k) <==> exists|i: int|
            0 <= i < s.len() && s[i].0@ == k by {
            if to_map(s).contains_key(k) && k != s.last().0@ {
                assert(to_map(t).contains_key(k));
                let i = choose|i: int| 0 <= i < t.len() && t[i].0@ == k;
                assert(s[i].0@ == k);
            }
            if exists|i: int| 0 <= i < s.len() && s[i].0@ == k {
                let i = choose|i: int| 0 <= i < s.len() && s[i].0@ == k;
                if i < s.len() - 1 {
                    assert(t[i].0@ == k);
                }
            }
        }
        assert forall|i: int| 0 <= i < s.len() implies to_map(s)[#[trigger] s[i].0@] == s[i].1 by {
            if i < s.len() - 1 {
                assert(t[i] == s[i]);
                assert(s[i].0@ != s.last().0@);
            }
        }
    }
}

/// Keys in the map are exactly the listed keys.
pub proof fn lemma_to_map_keys<V>(s: Seq<(String, V)>)
    requires
        keys_distinct(s),
    ensures
        to_map(s).dom() == keys_of(s).to_set(),
{
    lemma_to_map(s);
    assert forall|k: Seq<char>| to_map(s).dom().contains(k) <==> #[trigger] keys_of(s).to_set().contains(k) by {
        if keys_of(s).contains(k) {
            let i = choose|i: int| 0 <= i < keys_of(s).len() && keys_of(s)[i] == k;
            assert(s[i].0@ == k);
        }
        if to_map(s).contains_key(k) {
            let i = choose|i: int| 0 <= i < s.len() && s[i].0@ == k;
            assert(keys_of(s)[i] == k);
        }
    }
    assert(to_map(s).dom() =~= keys_of(s).to_set());
}

/// A map from strings to values.
pub struct StrMap<V> {
    entries: Vec<(String, V)>,
}

impl<V> StrMap<V> {
    /// The entries, in insertion order.
    pub closed spec fn entries(&self) -> Seq<(String, V)> {
        self.entries@
    }

    /// The map the entries stand for.
    pub open spec fn view(&self) -> Map<Seq<char>, V> {
        to_map(self.entries())
    }

    /// Keys are distinct.
    pub open spec fn wf(&self) -> bool {
        keys_distinct(self.entries())
    }

    /// The keys, in insertion order.
    pub open spec fn key_list(&self) -> Seq<Seq<char>> {
        keys_of(self.entries())
    }

    /// An empty map.
    pub fn new() -> (r: StrMap<V>)
        ensures
            r.wf(),
            r.view() == Map::<Seq<char>, V>::empty(),
            r.entries() == Seq::<(String, V)>::empty(),
    {
        StrMap { entries: Vec::new() }
    }

    /// Number of keys.
    pub fn len(&self) -> (r: usize)
        requires
            self.wf(),
        ensures
            r == self.entries().len(),
            r == self.view().dom().len(),
    {
        proof {
            lemma_to_map_keys(self.entries());
            assert(self.key_list().no_duplicates()) by {
                assert forall|i: int, j: int| 0 <= i < self.key_list().len() && 0 <= j < self.key_list().len()
                    && i != j implies self.key_list()[i] != self.key_list()[j] by {
                    if i < j {
                        assert(self.entries()[i].0@ != self.entries()[j].0@);
                    } else {
                        assert(self.entries()[j].0@ != self.entries()[i].0@);
                    }
                }
            }
            self.key_list().unique_seq_to_set();
        }
        self.entries.len()
    }

    /// Position of `key` among the entries.
    #[verifier::loop_isolation(false)]
    pub fn position(&self, key: &str) -> (r: Option<usize>)
        requires
            self.wf(),
        ensures
            match r {
                Some(i) => i < self.entries().len() && self.entries()[i as int].0@ == key@,
                None => !self.view().contains_key(key@),
            },
            r is Some <==> self.view().contains_key(key@),
    {
        proof {
            lemma_to_map(self.entries());
        }
        let mut i: usize = 0;
        while i < self.entries.len()
            invariant
                i <= self.entries().len(),
                forall|k: int| 0 <= k < i ==> (#[trigger] self.entries()[k]).0@ != key@,
            decreases self.entries().len() - i,
        {
            if str_eq(self.entries[i].0.as_str(), key) {
                return Some(i);
            }
            i += 1;
        }
        None
    }

    /// The value of `key`, if any.
    pub fn get(&self, key: &str) -> (r: Option<&V>)
        requires
            self.wf(),
        ensures
            match r {
                Some(v) => self.view().contains_key(key@) && self.view()[key@] == *v,
                None => !self.view().contains_key(key@),
            },
    {
        proof {
            lemma_to_map(self.entries());
        }
        match self.position(key) {
            Some(i) => Some(&self.entries[i].1),
            None => None,
        }
    }

    /// Whether `key` has a value.
    pub fn contains_key(&self, key: &str) -> (r: bool)
        requires
            self.wf(),
        ensures
            r == self.view().contains_key(key@),
    {
        self.position(key).is_some()
    }

    /// Sets the value of `key`; a new key goes after the others.
    pub fn insert(&mut self, key: String, value: V)
        requires
            old(self).wf(),
        ensures
            final(self).wf(),
            final(self).view() == old(self).view().insert(key@, value),
            old(self).view().contains_key(key@) ==> final(self).key_list() == old(self).key_list(),
            !old(self).view().contains_key(key@) ==> final(self).key_list() == old(self).key_list().push(key@),
    {
        let ghost s0 = self.entries@;
        proof {
            lemma_to_map(s0);
        }
        match self.position(key.as_str()) {
            Some(i) => {
                let ghost k = key@;
                self.entries.set(i, (key, value));
                proof {
                    let s1 = self.entries@;
                    assert(s1 == s0.update(i as int, (s1[i as int].0, value)));
                    assert(keys_distinct(s1)) by {
                        assert forall|a: int, b: int| 0 <= a < b < s1.len() implies s1[a].0@ != s1[b].0@ by {
                            if a != i && b != i {
                                assert(s1[a] == s0[a] && s1[b] == s0[b]);
                            }
                        }
                    }
                    lemma_to_map(s1);
                    assert forall|q: Seq<char>| #[trigger] to_map(s1).contains_key(q) == to_map(s0).insert(k, value).contains_key(q) by {
                        if to_map(s0).contains_key(q) {
                            let j = choose|j: int| 0 <= j < s0.len() && s0[j].0@ == q;
                            if j != i {
                                assert(s1[j].0@ == q);
                            }
                        }
                        if to_map(s1).contains_key(q) {
                            let j = choose|j: int| 0 <= j < s1.len() && s1[j].0@ == q;
                            if j != i {
                                assert(s0[j].0@ == q);
                            }
                        }
                    }
                    assert forall|q: Seq<char>| #[trigger] to_map(s1).contains_key(q) implies to_map(s1)[q] == to_map(s0).insert(k, value)[q] by {
                        let j = choose|j: int| 0 <= j < s1.len() && s1[j].0@ == q;
                        if j != i {
                            assert(s1[j] == s0[j]);
                        }
                    }
                    assert(to_map(s1) =~= to_map(s0).insert(k, value));
                    assert(keys_of(s1) =~= keys_of(s0));
                }
            },
            None => {
                let ghost k = key@;
                self.entries.push((key, value));
                proof {
                    let s1 = self.entries@;
                    assert(s1.drop_last() == s0);
                    assert(keys_distinct(s1)) by {
                        assert forall|a: int, b: int| 0 <= a < b < s1.len() implies s1[a].0@ != s1[b].0@ by {
                            if b == s1.len() - 1 {
                                assert(s0[a].0@ == s1[a].0@);
                            } else {
                                assert(s1[a] == s0[a] && s1[b] == s0[b]);
                            }
                        }
                    }
                    assert(keys_of(s1) =~= keys_of(s0).push(k));
                }
            },
        }
    }

    /// Removes `key` and its value; the other keys keep their order.
    pub fn remove(&mut self, key: &str) -> (r: Option<V>)
        requires
            old(self).wf(),
        ensures
            final(self).wf(),
            final(self).view() == old(self).view().remove(key@),
            match r {
                Some(v) => old(self).view().contains_key(key@) && old(self).view()[key@] == v,
                None => !old(self).view().contains_key(key@),
            },
    {
        let ghost s0 = self.entries@;
        proof {
            lemma_to_map(s0);
        }
        match self.position(key) {
            Some(i) => {
                let (_, v) = self.entries.remove(i);
                proof {
                    let s1 = self.entries@;
                    assert(s1 == s0.remove(i as int));
                    assert(keys_distinct(s1)) by {
                        assert forall|a: int, b: int| 0 <= a < b < s1.len() implies s1[a].0@ != s1[b].0@ by {
                            let a0 = if a < i { a } else { a + 1 };
                            let b0 = if b < i { b } else { b + 1 };
                            assert(s1[a] == s0[a0] && s1[b] == s0[b0]);
                        }
                    }
                    lemma_to_map(s1);
                    assert forall|q: Seq<char>| #[trigger] to_map(s1).contains_key(q) == to_map(s0).remove(key@).contains_key(q) by {
                        if to_map(s0).contains_key(q) && q != key@ {
                            let j = choose|j: int| 0 <= j < s0.len() && s0[j].0@ == q;
                            let j1 = if j < i { j } else { j - 1 };
                            assert(j != i);
                            assert(s1[j1] == s0[j]);
                        }
                        if to_map(s1).contains_key(q) {
                            let j = choose|j: int| 0 <= j < s1.len() && s1[j].0@ == q;
                            let j0 = if j < i { j } else { j + 1 };
                            assert(s1[j] == s0[j0]);
                            assert(j0 != i);
                        }
                    }
                    assert forall|q: Seq<char>| #[trigger] to_map(s1).contains_key(q) implies to_map(s1)[q] == to_map(s0).remove(key@)[q] by {
                        let j = choose|j: int| 0 <= j < s1.len() && s1[j].0@ == q;
                        let j0 = if j < i { j } else { j + 1 };
                        assert(s1[j] == s0[j0]);
                    }
                    assert(to_map(s1) =~= to_map(s0).remove(key@));
                }
                Some(v)
            },
            None => {
                assert(to_map(s0) =~= to_map(s0).remove(key@));
                None
            },
        }
    }

    /// The keys, in insertion order.
    pub fn keys(&self) -> (r: Vec<String>)
        ensures
            r@.map_values(|s: String| s@) == self.key_list(),
    {
        let mut r: Vec<String> = Vec::new();
        let mut i: usize = 0;
        while i < self.entries.len()
            invariant
                i <= self.entries().len(),
                r@.map_values(|s: String| s@) == keys_of(self.entries()).take(i as int),
            decreases self.entries().len() - i,
        {
            r.push(copy_str(self.entries[i].0.as_str()));
            assert(keys_of(self.entries()).take(i + 1) == keys_of(self.entries()).take(i as int).push(
                self.entries()[i as int].0@,
            ));
            assert(r@.map_values(|s: String| s@) =~= keys_of(self.entries()).take(i as int).push(
                self.entries()[i as int].0@,
            ));
            i += 1;
        }
        assert(keys_of(self.entries()).take(i as int) =~= keys_of(self.entries()));
        r
    }

    /// The value at position `i` of the insertion order, with its key.
    pub fn entry_at(&self, i: usize) -> (r: (&String, &V))
        requires
            i < self.entries().len(),
        ensures
            *r.0 == self.entries()[i as int].0,
            *r.1 == self.entries()[i as int].1,
    {
        (&self.entries[i].0, &self.entries[i].1)
    }

    /// Number of entries, without needing the keys to be distinct.
    pub fn entry_count(&self) -> (r: usize)
        ensures
            r == self.entries().len(),
    {
        self.entries.len()
    }

    /// Removes every entry.
    pub fn clear(&mut self)
        ensures
            final(self).wf(),
            final(self).view() == Map::<Seq<char>, V>::empty(),
            final(self).entries() == Seq::<(String, V)>::empty(),
    {
        self.entries.clear();
    }
}

} // verus!
