//! A small association map: a vector of key/value entries whose keys
//! are pairwise distinct, viewed as a mathematical `Map`.
use vstd::prelude::*;

verus! {

/// Keys that can be compared for equality in executable code, in a way
/// that agrees with equality of their views.
pub trait KeyEq: View + Sized {
    fn key_eq(&self, other: &Self) -> (b: bool)
        ensures
            b == (self@ == other@),
    ;
}

impl KeyEq for String {
    fn key_eq(&self, other: &Self) -> (b: bool) {
        *self == *other
    }
}

/// The map described by a sequence of entries: later entries override
/// earlier ones with the same key.
pub open spec fn map_of<A, B>(s: Seq<(A, B)>) -> Map<A, B>
    decreases s.len(),
{
    if s.len() == 0 {
        Map::empty()
    } else {
        map_of(s.drop_last()).insert(s.last().0, s.last().1)
    }
}

/// No key occurs twice in the sequence of entries.
pub open spec fn unique_keys<A, B>(s: Seq<(A, B)>) -> bool {
    forall|i: int, j: int| 0 <= i < j < s.len() ==> s[i].0 != s[j].0
}

/// A key is in the map of a sequence exactly when some entry carries it.
pub proof fn lemma_map_of_dom<A, B>(s: Seq<(A, B)>, k: A)
    ensures
        map_of(s).dom().contains(k) <==> exists|i: int| 0 <= i < s.len() && #[trigger] s[i].0 == k,
    decreases s.len(),
{
    if s.len() > 0 {
        lemma_map_of_dom(s.drop_last(), k);
        if map_of(s.drop_last()).dom().contains(k) {
            let i = choose|i: int| 0 <= i < s.drop_last().len() && #[trigger] s.drop_last()[i].0 == k;
            assert(s[i].0 == k);
        }
        if exists|i: int| 0 <= i < s.len() && #[trigger] s[i].0 == k {
            let i = choose|i: int| 0 <= i < s.len() && #[trigger] s[i].0 == k;
            if i < s.len() - 1 {
                assert(s.drop_last()[i].0 == k);
            }
        }
    }
}

/// The map sends a key to the value of the last entry that carries it.
pub proof fn lemma_map_of_last<A, B>(s: Seq<(A, B)>, i: int)
    requires
        0 <= i < s.len(),
        forall|j: int| i < j < s.len() ==> #[trigger] s[j].0 != s[i].0,
    ensures
        map_of(s).dom().contains(s[i].0),
        map_of(s)[s[i].0] == s[i].1,
    decreases s.len(),
{
    if i < s.len() - 1 {
        assert forall|j: int| i < j < s.drop_last().len() implies #[trigger] s.drop_last()[j].0 != s.drop_last()[i].0 by {
            assert(s.drop_last()[j] == s[j]);
        }
        lemma_map_of_last(s.drop_last(), i);
        assert(s.drop_last()[i] == s[i]);
    }
}

/// With distinct keys, the map sends each entry's key to that entry's value.
pub proof fn lemma_map_of_index<A, B>(s: Seq<(A, B)>, i: int)
    requires
        unique_keys(s),
        0 <= i < s.len(),
    ensures
        map_of(s).dom().contains(s[i].0),
        map_of(s)[s[i].0] == s[i].1,
    decreases s.len(),
{
    if i < s.len() - 1 {
        assert(unique_keys(s.drop_last()));
        lemma_map_of_index(s.drop_last(), i);
        assert(s.drop_last()[i] == s[i]);
    }
}

/// Two sequences of entries with distinct keys describe the same map
/// when every key found in one is found in the other with the same value.
pub proof fn lemma_map_of_eq<A, B>(s: Seq<(A, B)>, m: Map<A, B>)
    requires
        unique_keys(s),
        forall|i: int| 0 <= i < s.len() ==> m.dom().contains(#[trigger] s[i].0) && m[s[i].0] == s[i].1,
        forall|k: A| m.dom().contains(k) ==> exists|i: int| 0 <= i < s.len() && #[trigger] s[i].0 == k,
    ensures
        map_of(s) == m,
{
    assert forall|k: A| #[trigger] map_of(s).dom().contains(k) == m.dom().contains(k) by {
        lemma_map_of_dom(s, k);
    }
    assert forall|k: A| map_of(s).dom().contains(k) implies #[trigger] map_of(s)[k] == m[k] by {
        lemma_map_of_dom(s, k);
        let i = choose|i: int| 0 <= i < s.len() && #[trigger] s[i].0 == k;
        lemma_map_of_index(s, i);
    }
    assert(map_of(s) =~= m);
}

/// An association map with pairwise distinct keys.
pub struct AssocMap<K: View, V: View> {
    entries: Vec<(K, V)>,
}

impl<K: View, V: View> AssocMap<K, V> {
    /// The entries, each taken by its view.
    pub closed spec fn entry_views(&self) -> Seq<(K::V, V::V)> {
        self.entries@.map_values(|e: (K, V)| (e.0@, e.1@))
    }

    #[verifier::type_invariant]
    closed spec fn keys_distinct(&self) -> bool {
        unique_keys(self.entry_views())
    }
}

impl<K: View, V: View> View for AssocMap<K, V> {
    type V = Map<K::V, V::V>;

    closed spec fn view(&self) -> Map<K::V, V::V> {
        map_of(self.entry_views())
    }
}

impl<K: KeyEq, V: View> AssocMap<K, V> {
    /// The empty map.
    pub fn new() -> (m: Self)
        ensures
            m@ == Map::<K::V, V::V>::empty(),
    {
        let m = AssocMap { entries: Vec::new() };
        assert(m.entry_views() =~= Seq::<(K::V, V::V)>::empty());
        m
    }

    /// The number of keys in the map.
    pub fn len(&self) -> (n: usize)
        ensures
            n == self@.dom().len(),
            self@.dom().finite(),
    {
        proof {
            use_type_invariant(self);
            self.lemma_len();
        }
        self.entries.len()
    }

    proof fn lemma_len(&self)
        requires
            unique_keys(self.entry_views()),
        ensures
            self@.dom().finite(),
            self@.dom().len() == self.entries@.len(),
    {
        lemma_map_of_len(self.entry_views());
    }

    /// The position of the entry with the given key, if any.
    fn find(&self, k: &K) -> (r: Option<usize>)
        ensures
            match r {
                Some(i) => i < self.entries@.len() && self.entries@[i as int].0@ == k@,
                None => !self@.dom().contains(k@),
            },
    {
        let n = self.entries.len();
        let mut i: usize = 0;
        while i < n
            invariant
                n == self.entries@.len(),
                i <= n,
                forall|j: int| 0 <= j < i ==> self.entries@[j].0@ != k@,
            decreases n - i,
        {
            if self.entries[i].0.key_eq(k) {
                return Some(i);
            }
            i = i + 1;
        }
        proof {
            lemma_map_of_dom(self.entry_views(), k@);
            if self@.dom().contains(k@) {
                let j = choose|j: int| 0 <= j < self.entry_views().len() && #[trigger] self.entry_views()[j].0 == k@;
                assert(self.entries@[j].0@ == k@);
            }
        }
        None
    }

    /// Whether the key is in the map.
    pub fn contains_key(&self, k: &K) -> (b: bool)
        ensures
            b == self@.dom().contains(k@),
    {
        proof {
            use_type_invariant(self);
        }
        match self.find(k) {
            Some(i) => {
                proof {
                    lemma_map_of_index(self.entry_views(), i as int);
                }
                true
            },
            None => false,
        }
    }

    /// The value stored under the key, if any.
    pub fn get(&self, k: &K) -> (r: Option<&V>)
        ensures
            match r {
                Some(v) => self@.dom().contains(k@) && self@[k@] == v@,
                None => !self@.dom().contains(k@),
            },
    {
        proof {
            use_type_invariant(self);
        }
        match self.find(k) {
            Some(i) => {
                proof {
                    lemma_map_of_index(self.entry_views(), i as int);
                }
                Some(&self.entries[i].1)
            },
            None => None,
        }
    }

    /// Stores the value under the key, replacing any value it had.
    pub fn insert(&mut self, k: K, v: V)
        ensures
            final(self)@ == old(self)@.insert(k@, v@),
    {
        proof {
            use_type_invariant(&*self);
        }
        let ghost old_views = self.entry_views();
        let ghost kv = k@;
        let ghost vv = v@;
        match self.find(&k) {
            Some(i) => {
                proof {
                    assert forall|a: int, b: int| 0 <= a < b < old_views.len() implies
                        #[trigger] old_views.update(i as int, (kv, vv))[a].0
                        != #[trigger] old_views.update(i as int, (kv, vv))[b].0 by {
                        assert(old_views[a].0 != old_views[b].0);
                    }
                }
                let mut entries: Vec<(K, V)> = Vec::new();
                std::mem::swap(&mut entries, &mut self.entries);
                entries.set(i, (k, v));
                assert(entries@.map_values(|e: (K, V)| (e.0@, e.1@)) =~= old_views.update(i as int, (kv, vv)));
                self.entries = entries;
                proof {
                    assert(self.entry_views() =~= old_views.update(i as int, (kv, vv)));
                    let m = map_of(old_views).insert(kv, vv);
                    let s = self.entry_views();
                    assert forall|j: int| 0 <= j < s.len() implies m.dom().contains(#[trigger] s[j].0)
                        && m[s[j].0] == s[j].1 by {
                        if j != i {
                            lemma_map_of_index(old_views, j);
                            assert(old_views[i as int].0 == kv);
                            if j < i {
                                assert(old_views[j].0 != old_views[i as int].0);
                            } else {
                                assert(old_views[i as int].0 != old_views[j].0);
                            }
                        }
                    }
                    assert forall|key: K::V| m.dom().contains(key) implies exists|j: int|
                        0 <= j < s.len() && #[trigger] s[j].0 == key by {
                        if key != kv {
                            lemma_map_of_dom(old_views, key);
                            let j = choose|j: int| 0 <= j < old_views.len() && #[trigger] old_views[j].0 == key;
                            assert(s[j].0 == key);
                        } else {
                            assert(s[i as int].0 == key);
                        }
                    }
                    lemma_map_of_eq(s, m);
                }
            },
            None => {
                proof {
                    assert forall|a: int, b: int| 0 <= a < b < old_views.len() + 1 implies
                        #[trigger] old_views.push((kv, vv))[a].0
                        != #[trigger] old_views.push((kv, vv))[b].0 by {
                        if b < old_views.len() {
                            assert(old_views[a].0 != old_views[b].0);
                        } else {
                            lemma_map_of_dom(old_views, kv);
                            assert(old_views[a].0 != kv);
                        }
                    }
                }
                let mut entries: Vec<(K, V)> = Vec::new();
                std::mem::swap(&mut entries, &mut self.entries);
                entries.push((k, v));
                assert(entries@.map_values(|e: (K, V)| (e.0@, e.1@)) =~= old_views.push((kv, vv)));
                self.entries = entries;
                proof {
                    assert(self.entry_views() =~= old_views.push((kv, vv)));
                    assert(self.entry_views().drop_last() =~= old_views);
                }
            },
        }
    }

    /// Takes the key out of the map, handing back the value it had.
    pub fn remove(&mut self, k: &K) -> (r: Option<V>)
        ensures
            final(self)@ == old(self)@.remove(k@),
            match r {
                Some(v) => old(self)@.dom().contains(k@) && old(self)@[k@] == v@,
                None => !old(self)@.dom().contains(k@),
            },
    {
        proof {
            use_type_invariant(&*self);
        }
        let ghost old_views = self.entry_views();
        match self.find(k) {
            Some(i) => {
                proof {
                    lemma_map_of_index(old_views, i as int);
                    assert forall|a: int, b: int| 0 <= a < b < old_views.len() - 1 implies
                        #[trigger] old_views.remove(i as int)[a].0
                        != #[trigger] old_views.remove(i as int)[b].0 by {
                        let a2 = if a < i { a } else { a + 1 };
                        let b2 = if b < i { b } else { b + 1 };
                        assert(old_views[a2].0 != old_views[b2].0);
                    }
                }
                let mut entries: Vec<(K, V)> = Vec::new();
                std::mem::swap(&mut entries, &mut self.entries);
                let e = entries.remove(i);
                assert(entries@.map_values(|e: (K, V)| (e.0@, e.1@)) =~= old_views.remove(i as int));
                self.entries = entries;
                proof {
                    assert(self.entry_views() =~= old_views.remove(i as int));
                    let m = map_of(old_views).remove(k@);
                    let s = self.entry_views();
                    assert forall|j: int| 0 <= j < s.len() implies m.dom().contains(#[trigger] s[j].0)
                        && m[s[j].0] == s[j].1 by {
                        let j2 = if j < i { j } else { j + 1 };
                        lemma_map_of_index(old_views, j2);
                        assert(old_views[j2].0 != old_views[i as int].0);
                    }
                    assert forall|key: K::V| m.dom().contains(key) implies exists|j: int|
                        0 <= j < s.len() && #[trigger] s[j].0 == key by {
                        lemma_map_of_dom(old_views, key);
                        let j = choose|j: int| 0 <= j < old_views.len() && #[trigger] old_views[j].0 == key;
                        if j < i {
                            assert(s[j].0 == key);
                        } else {
                            assert(j != i);
                            assert(s[j - 1].0 == key);
                        }
                    }
                    lemma_map_of_eq(s, m);
                }
                Some(e.1)
            },
            None => {
                proof {
                    assert(map_of(old_views).remove(k@) =~= map_of(old_views));
                }
                None
            },
        }
    }

    /// The entries of the map, each once, in the order they are stored.
    pub fn iter(&self) -> (r: Vec<&(K, V)>)
        ensures
            r@.len() == self@.dom().len(),
            forall|i: int| 0 <= i < r@.len() ==> self@.dom().contains(#[trigger] r@[i].0@)
                && self@[r@[i].0@] == r@[i].1@,
            forall|i: int, j: int| 0 <= i < j < r@.len() ==> #[trigger] r@[i].0@ != #[trigger] r@[j].0@,
            forall|k: K::V| self@.dom().contains(k) ==> exists|i: int| 0 <= i < r@.len() && #[trigger] r@[i].0@ == k,
    {
        proof {
            use_type_invariant(self);
            self.lemma_len();
        }
        let n = self.entries.len();
        let mut r: Vec<&(K, V)> = Vec::new();
        let mut i: usize = 0;
        while i < n
            invariant
                n == self.entries@.len(),
                i <= n,
                r@.len() == i,
                forall|j: int| 0 <= j < i ==> #[trigger] r@[j] == &self.entries@[j],
            decreases n - i,
        {
            r.push(&self.entries[i]);
            i = i + 1;
        }
        proof {
            let s = self.entry_views();
            assert forall|i: int| 0 <= i < r@.len() implies self@.dom().contains(#[trigger] r@[i].0@)
                && self@[r@[i].0@] == r@[i].1@ by {
                lemma_map_of_index(s, i);
                assert(s[i] == (r@[i].0@, r@[i].1@));
            }
            assert forall|i: int, j: int| 0 <= i < j < r@.len() implies #[trigger] r@[i].0@ != #[trigger] r@[j].0@ by {
                assert(s[i].0 != s[j].0);
            }
            assert forall|k: K::V| self@.dom().contains(k) implies exists|i: int| 0 <= i < r@.len() && #[trigger] r@[i].0@ == k by {
                lemma_map_of_dom(s, k);
                let i = choose|i: int| 0 <= i < s.len() && #[trigger] s[i].0 == k;
                assert(r@[i].0@ == k);
            }
        }
        r
    }

    /// The entry at a position of the underlying sequence.
    pub fn entry_at(&self, i: usize) -> (e: &(K, V))
        requires
            i < self@.dom().len(),
        ensures
            self@.dom().contains(e.0@),
            self@[e.0@] == e.1@,
            e.0@ == self.entry_views()[i as int].0,
            e.1@ == self.entry_views()[i as int].1,
    {
        proof {
            use_type_invariant(self);
            self.lemma_len();
            lemma_map_of_index(self.entry_views(), i as int);
        }
        &self.entries[i]
    }
}

/// A sequence of entries with distinct keys describes a finite map with
/// as many keys as entries.
pub proof fn lemma_map_of_len<A, B>(s: Seq<(A, B)>)
    requires
        unique_keys(s),
    ensures
        map_of(s).dom().finite(),
        map_of(s).dom().len() == s.len(),
    decreases s.len(),
{
    if s.len() > 0 {
        assert(unique_keys(s.drop_last()));
        lemma_map_of_len(s.drop_last());
        lemma_map_of_dom(s.drop_last(), s.last().0);
        if map_of(s.drop_last()).dom().contains(s.last().0) {
            let i = choose|i: int| 0 <= i < s.drop_last().len() && #[trigger] s.drop_last()[i].0 == s.last().0;
            assert(s[i].0 == s[s.len() - 1].0);
        }
    }
}

} // verus!
