//! A string-keyed map backed by an association vector.
//!
//! The abstract value of a [`StrMap`] is a `Map<Seq<char>, V>`; the entry
//! order (insertion order) stays observable through [`StrMap::kvs`] for the
//! paginated enumeration endpoints.

use vstd::prelude::*;

verus! {

/// The map denoted by an association list; a later entry wins, though a
/// well-formed list never repeats a key.
pub open spec fn entries_map<V>(s: Seq<(String, V)>) -> Map<Seq<char>, V>
    decreases s.len(),
{
    if s.len() == 0 {
        Map::empty()
    } else {
        entries_map(s.drop_last()).insert(s.last().0@, s.last().1)
    }
}

/// No two entries share a key.
pub open spec fn keys_distinct<V>(s: Seq<(String, V)>) -> bool {
    forall|i: int, j: int| 0 <= i < j < s.len() ==> (#[trigger] s[i].0)@ != (#[trigger] s[j].0)@
}

/// A key is in the map exactly when some entry holds it.
pub proof fn lemma_entries_map_contains<V>(s: Seq<(String, V)>, k: Seq<char>)
    ensures
        entries_map(s).contains_key(k) <==> exists|i: int|
            0 <= i < s.len() && (#[trigger] s[i].0)@ == k,
    decreases s.len(),
{
    if s.len() == 0 {
    } else {
        lemma_entries_map_contains(s.drop_last(), k);
        if s.last().0@ == k {
            assert(s[s.len() - 1].0@ == k);
        } else {
            if entries_map(s).contains_key(k) {
                let i = choose|i: int| 0 <= i < s.drop_last().len() && (#[trigger] s.drop_last(
                )[i].0)@ == k;
                assert(s[i].0@ == k);
            }
            if exists|i: int| 0 <= i < s.len() && (#[trigger] s[i].0)@ == k {
                let i = choose|i: int| 0 <= i < s.len() && (#[trigger] s[i].0)@ == k;
                assert(i < s.len() - 1);
                assert(s.drop_last()[i].0@ == k);
            }
        }
    }
}

/// Each entry of a well-formed list is present in the map with its value.
pub proof fn lemma_entries_map_index<V>(s: Seq<(String, V)>, i: int)
    requires
        keys_distinct(s),
        0 <= i < s.len(),
    ensures
        entries_map(s).contains_key(s[i].0@),
        entries_map(s)[s[i].0@] == s[i].1,
    decreases s.len(),
{
    if i == s.len() - 1 {
    } else {
        assert(keys_distinct(s.drop_last()));
        assert(s.drop_last()[i] == s[i]);
        lemma_entries_map_index(s.drop_last(), i);
        assert(s[i].0@ != s.last().0@);
    }
}

/// Appending a fresh entry inserts its binding.
pub proof fn lemma_entries_map_push<V>(s: Seq<(String, V)>, k: String, v: V)
    ensures
        entries_map(s.push((k, v))) == entries_map(s).insert(k@, v),
{
    assert(s.push((k, v)).drop_last() =~= s);
    assert(s.push((k, v)).last() == (k, v));
}

/// Replacing the entry that holds a key updates its binding.
pub proof fn lemma_entries_map_update<V>(s: Seq<(String, V)>, i: int, k: String, v: V)
    requires
        keys_distinct(s),
        0 <= i < s.len(),
        s[i].0@ == k@,
    ensures
        entries_map(s.update(i, (k, v))) == entries_map(s).insert(k@, v),
    decreases s.len(),
{
    let su = s.update(i, (k, v));
    if i == s.len() - 1 {
        assert(su.drop_last() =~= s.drop_last());
        assert(su.last() == (k, v));
        assert(entries_map(su) == entries_map(s.drop_last()).insert(k@, v));
        assert(entries_map(s.drop_last()).insert(s.last().0@, s.last().1).insert(k@, v)
            =~= entries_map(s.drop_last()).insert(k@, v));
    } else {
        assert(keys_distinct(s.drop_last()));
        assert(s.drop_last()[i] == s[i]);
        lemma_entries_map_update(s.drop_last(), i, k, v);
        assert(su.drop_last() =~= s.drop_last().update(i, (k, v)));
        assert(su.last() == s.last());
        assert(s[i].0@ != s.last().0@);
        assert(entries_map(su) == entries_map(s.drop_last()).insert(k@, v).insert(
            s.last().0@,
            s.last().1,
        ));
        assert(entries_map(s.drop_last()).insert(k@, v).insert(s.last().0@, s.last().1)
            =~= entries_map(s.drop_last()).insert(s.last().0@, s.last().1).insert(k@, v));
    }
}

/// Removing the entry that holds a key removes its binding.
pub proof fn lemma_entries_map_remove<V>(s: Seq<(String, V)>, i: int)
    requires
        keys_distinct(s),
        0 <= i < s.len(),
    ensures
        entries_map(s.remove(i)) == entries_map(s).remove(s[i].0@),
    decreases s.len(),
{
    let sr = s.remove(i);
    if i == s.len() - 1 {
        assert(sr =~= s.drop_last());
        lemma_entries_map_contains(s.drop_last(), s[i].0@);
        assert(forall|j: int|
            0 <= j < s.drop_last().len() ==> (#[trigger] s.drop_last()[j].0)@ != s[i].0@);
        assert(!entries_map(s.drop_last()).contains_key(s[i].0@));
        assert(entries_map(s.drop_last()).insert(s.last().0@, s.last().1).remove(s[i].0@)
            =~= entries_map(s.drop_last()));
    } else {
        assert(keys_distinct(s.drop_last()));
        assert(s.drop_last()[i] == s[i]);
        lemma_entries_map_remove(s.drop_last(), i);
        assert(sr.drop_last() =~= s.drop_last().remove(i));
        assert(sr.last() == s.last());
        assert(s[i].0@ != s.last().0@);
        assert(entries_map(sr) == entries_map(s.drop_last()).remove(s[i].0@).insert(
            s.last().0@,
            s.last().1,
        ));
        assert(entries_map(s.drop_last()).remove(s[i].0@).insert(s.last().0@, s.last().1)
            =~= entries_map(s.drop_last()).insert(s.last().0@, s.last().1).remove(s[i].0@));
    }
}

/// A well-formed list denotes a finite map with one binding per entry.
pub proof fn lemma_entries_map_len<V>(s: Seq<(String, V)>)
    requires
        keys_distinct(s),
    ensures
        entries_map(s).dom().finite(),
        entries_map(s).dom().len() == s.len(),
    decreases s.len(),
{
    if s.len() == 0 {
    } else {
        assert(keys_distinct(s.drop_last()));
        lemma_entries_map_len(s.drop_last());
        lemma_entries_map_contains(s.drop_last(), s.last().0@);
        assert(forall|j: int|
            0 <= j < s.drop_last().len() ==> (#[trigger] s.drop_last()[j].0)@ != s.last().0@);
        assert(!entries_map(s.drop_last()).contains_key(s.last().0@));
    }
}

/// A string-keyed map preserving insertion order.
pub struct StrMap<V> {
    entries: Vec<(String, V)>,
}

impl<V> View for StrMap<V> {
    type V = Map<Seq<char>, V>;

    open spec fn view(&self) -> Map<Seq<char>, V> {
        entries_map(self.kvs())
    }
}

impl<V> StrMap<V> {
    /// The entries in insertion order.
    pub closed spec fn kvs(&self) -> Seq<(String, V)> {
        self.entries@
    }

    /// No key occurs twice.
    pub open spec fn wf(&self) -> bool {
        keys_distinct(self.kvs())
    }

    /// An empty map.
    pub fn new() -> (r: StrMap<V>)
        ensures
            r.wf(),
            r@ == Map::<Seq<char>, V>::empty(),
            r.kvs() == Seq::<(String, V)>::empty(),
    {
        let r = StrMap { entries: Vec::new() };
        proof {
            assert(r.kvs() =~= Seq::<(String, V)>::empty());
        }
        r
    }

    /// How many entries the map holds.
    pub fn len(&self) -> (n: usize)
        requires
            self.wf(),
        ensures
            n == self.kvs().len(),
            self@.dom().finite(),
            n == self@.dom().len(),
    {
        proof {
            lemma_entries_map_len(self.kvs());
        }
        self.entries.len()
    }

    /// The key of the entry at position `i`.
    pub fn key_at(&self, i: usize) -> (k: &String)
        requires
            i < self.kvs().len(),
        ensures
            *k == self.kvs()[i as int].0,
    {
        &self.entries[i].0
    }

    /// The value of the entry at position `i`.
    pub fn val_at(&self, i: usize) -> (v: &V)
        requires
            i < self.kvs().len(),
        ensures
            *v == self.kvs()[i as int].1,
    {
        &self.entries[i].1
    }

    /// Entries of a well-formed map are bindings of its abstract map.
    pub proof fn lemma_index(&self, i: int)
        requires
            self.wf(),
            0 <= i < self.kvs().len(),
        ensures
            self@.contains_key(self.kvs()[i].0@),
            self@[self.kvs()[i].0@] == self.kvs()[i].1,
    {
        lemma_entries_map_index(self.kvs(), i);
    }

    /// A key in the abstract map is held by some entry.
    pub proof fn lemma_contains(&self, k: Seq<char>)
        ensures
            self@.contains_key(k) <==> exists|i: int|
                0 <= i < self.kvs().len() && (#[trigger] self.kvs()[i].0)@ == k,
    {
        lemma_entries_map_contains(self.kvs(), k);
    }

    /// Looks a key up.
    pub fn get(&self, k: &String) -> (r: Option<&V>)
        requires
            self.wf(),
        ensures
            match r {
                Some(v) => self@.contains_key(k@) && *v == self@[k@],
                None => !self@.contains_key(k@),
            },
    {
        let n = self.entries.len();
        let mut i: usize = 0;
        while i < n
            invariant
                0 <= i <= n,
                n == self.kvs().len(),
                self.wf(),
                forall|j: int| 0 <= j < i ==> (#[trigger] self.kvs()[j].0)@ != k@,
            decreases n - i,
        {
            if self.entries[i].0 == *k {
                proof {
                    self.lemma_index(i as int);
                }
                return Some(&self.entries[i].1);
            }
            i = i + 1;
        }
        proof {
            self.lemma_contains(k@);
        }
        None
    }

    /// Whether a key is present.
    pub fn contains_key(&self, k: &String) -> (r: bool)
        requires
            self.wf(),
        ensures
            r == self@.contains_key(k@),
    {
        self.get(k).is_some()
    }

    /// Binds a key to a value, replacing any prior binding in place and
    /// appending a fresh key at the end.
    pub fn insert(&mut self, k: String, v: V)
        requires
            old(self).wf(),
        ensures
            final(self).wf(),
            final(self)@ == old(self)@.insert(k@, v),
            !old(self)@.contains_key(k@) ==> final(self).kvs() == old(self).kvs().push((k, v)),
            old(self)@.contains_key(k@) ==> final(self).kvs().len() == old(self).kvs().len()
                && (exists|i: int|
                0 <= i < old(self).kvs().len() && (#[trigger] old(self).kvs()[i].0)@ == k@
                    && final(self).kvs() == old(self).kvs().update(i, (k, v))),
    {
        let n = self.entries.len();
        let mut i: usize = 0;
        while i < n
            invariant
                0 <= i <= n,
                n == self.kvs().len(),
                self.wf(),
                *self == *old(self),
                forall|j: int| 0 <= j < i ==> (#[trigger] self.kvs()[j].0)@ != k@,
            decreases n - i,
        {
            if self.entries[i].0 == k {
                proof {
                    lemma_entries_map_update(self.kvs(), i as int, k, v);
                    self.lemma_contains(k@);
                }
                self.entries.set(i, (k, v));
                proof {
                    assert(keys_distinct(self.kvs())) by {
                        assert(forall|j: int|
                            0 <= j < self.kvs().len() && j != i ==> self.kvs()[j]
                                == old(self).kvs()[j]);
                    }
                }
                return ;
            }
            i = i + 1;
        }
        proof {
            self.lemma_contains(k@);
            lemma_entries_map_push(self.kvs(), k, v);
        }
        self.entries.push((k, v));
        proof {
            assert(keys_distinct(self.kvs())) by {
                assert(forall|j: int|
                    0 <= j < self.kvs().len() - 1 ==> self.kvs()[j] == old(self).kvs()[j]);
                assert(forall|j: int|
                    0 <= j < self.kvs().len() - 1 ==> (#[trigger] self.kvs()[j].0)@ != k@);
            }
        }
    }

    /// Removes a key's binding, handing its value out.
    pub fn take(&mut self, k: &String) -> (r: Option<V>)
        requires
            old(self).wf(),
        ensures
            final(self).wf(),
            match r {
                Some(v) => old(self)@.contains_key(k@) && v == old(self)@[k@] && final(self)@
                    == old(self)@.remove(k@),
                None => !old(self)@.contains_key(k@) && *final(self) == *old(self),
            },
    {
        let n = self.entries.len();
        let mut i: usize = 0;
        while i < n
            invariant
                0 <= i <= n,
                n == self.kvs().len(),
                self.wf(),
                *self == *old(self),
                forall|j: int| 0 <= j < i ==> (#[trigger] self.kvs()[j].0)@ != k@,
            decreases n - i,
        {
            if self.entries[i].0 == *k {
                proof {
                    self.lemma_index(i as int);
                    lemma_entries_map_remove(self.kvs(), i as int);
                }
                let (_key, v) = self.entries.remove(i);
                proof {
                    assert(keys_distinct(self.kvs())) by {
                        assert(forall|j: int|
                            0 <= j < i ==> self.kvs()[j] == old(self).kvs()[j]);
                        assert(forall|j: int|
                            i <= j < self.kvs().len() ==> self.kvs()[j] == old(self).kvs()[j + 1]);
                    }
                }
                return Some(v);
            }
            i = i + 1;
        }
        proof {
            self.lemma_contains(k@);
        }
        None
    }
}

} // verus!
