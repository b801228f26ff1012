//! A finite map held as a list of entries with distinct keys.
//!
//! Each storage map of the pallet is one of these; its view is a `Map`.
use vstd::prelude::*;

verus! {

/// Keys whose equality is decided by a call that agrees with spec equality.
pub trait MapKey: Sized {
    fn same_key(&self, other: &Self) -> (r: bool)
        ensures
            r == (*self == *other),
    ;
}

impl MapKey for u32 {
    fn same_key(&self, other: &Self) -> (r: bool) {
        *self == *other
    }
}

impl MapKey for u64 {
    fn same_key(&self, other: &Self) -> (r: bool) {
        *self == *other
    }
}

impl MapKey for (u32, u64) {
    fn same_key(&self, other: &Self) -> (r: bool) {
        self.0 == other.0 && self.1 == other.1
    }
}

impl MapKey for (u32, u64, u64) {
    fn same_key(&self, other: &Self) -> (r: bool) {
        self.0 == other.0 && self.1 == other.1 && self.2 == other.2
    }
}

/// A map from `K` to `V`: a list of entries, no two with the same key.
pub struct KeyMap<K, V> {
    entries: Vec<(K, V)>,
}

impl<K, V> KeyMap<K, V> {
    /// The keys, in the order their entries are held.
    pub closed spec fn keys(&self) -> Seq<K> {
        self.entries@.map_values(|e: (K, V)| e.0)
    }

    /// No key occurs twice.
    pub closed spec fn wf(&self) -> bool {
        self.keys().no_duplicates()
    }

    /// The map that the entries stand for.
    pub closed spec fn as_map(&self) -> Map<K, V> {
        Map::new(
            |k: K| self.keys().contains(k),
            |k: K| self.entries@[self.keys().index_of(k)].1,
        )
    }

    /// The map has finitely many keys.
    pub proof fn lemma_finite(&self)
        ensures
            self.as_map().dom().finite(),
    {
        assert(self.as_map().dom() =~= self.keys().to_set());
        broadcast use vstd::seq_lib::seq_to_set_is_finite;
    }

    proof fn lemma_entry_value(&self, i: int)
        requires
            self.wf(),
            0 <= i < self.entries@.len(),
        ensures
            self.as_map().contains_key(self.entries@[i].0),
            self.as_map()[self.entries@[i].0] == self.entries@[i].1,
    {
        let k = self.entries@[i].0;
        assert(self.keys()[i] == k);
        let j = self.keys().index_of(k);
        assert(0 <= j < self.keys().len() && self.keys()[j] == k);
    }
}

impl<K, V> View for KeyMap<K, V> {
    type V = Map<K, V>;

    open spec fn view(&self) -> Map<K, V> {
        self.as_map()
    }
}

impl<K: MapKey, V> KeyMap<K, V> {
    /// The empty map.
    pub fn new() -> (m: Self)
        ensures
            m.wf(),
            m@ == Map::<K, V>::empty(),
    {
        let m = KeyMap { entries: Vec::new() };
        assert(m.keys() =~= Seq::<K>::empty());
        assert(m@ =~= Map::<K, V>::empty());
        m
    }

    /// Where the entry for `k` is held, if there is one.
    fn find(&self, k: &K) -> (r: Option<usize>)
        requires
            self.wf(),
        ensures
            match r {
                Some(i) => i < self.entries@.len() && self.entries@[i as int].0 == *k,
                None => !self.keys().contains(*k),
            },
    {
        let n = self.entries.len();
        let mut i: usize = 0;
        while i < n
            invariant
                n == self.entries@.len(),
                0 <= i <= n,
                forall|j: int| 0 <= j < i ==> self.entries@[j].0 != *k,
            decreases n - i,
        {
            if self.entries[i].0.same_key(k) {
                return Some(i);
            }
            i = i + 1;
        }
        proof {
            if self.keys().contains(*k) {
                let j = choose|j: int| 0 <= j < self.keys().len() && self.keys()[j] == *k;
                assert(self.entries@[j].0 == *k);
            }
        }
        None
    }

    /// Whether `k` has an entry.
    pub fn contains_key(&self, k: &K) -> (b: bool)
        requires
            self.wf(),
        ensures
            b == self@.contains_key(*k),
    {
        match self.find(k) {
            Some(i) => {
                proof {
                    self.lemma_entry_value(i as int);
                }
                true
            },
            None => false,
        }
    }

    /// The value held for `k`, if any.
    pub fn get(&self, k: &K) -> (r: Option<&V>)
        requires
            self.wf(),
        ensures
            r == (if self@.contains_key(*k) {
                Some(&self@[*k])
            } else {
                None::<&V>
            }),
    {
        match self.find(k) {
            Some(i) => {
                proof {
                    self.lemma_entry_value(i as int);
                }
                Some(&self.entries[i].1)
            },
            None => None,
        }
    }

    /// Sets the value for `k` to `v`, adding `k` when it has no entry yet.
    pub fn insert(&mut self, k: K, v: V)
        requires
            old(self).wf(),
        ensures
            final(self).wf(),
            final(self)@ == old(self)@.insert(k, v),
    {
        let ghost old_keys = self.keys();
        let ghost old_map = self@;
        match self.find(&k) {
            Some(i) => {
                self.entries.set(i, (k, v));
                proof {
                    assert(self.keys() =~= old_keys);
                    assert forall|key: K| #[trigger] self@.contains_key(key) implies self@[key]
                        == old_map.insert(k, v)[key] by {
                        let j = self.keys().index_of(key);
                        assert(0 <= j < self.keys().len() && self.keys()[j] == key);
                        if key != k {
                            assert(j != i);
                        } else {
                            assert(self.keys()[i as int] == k);
                        }
                    }
                    assert(self@ =~= old_map.insert(k, v));
                }
            },
            None => {
                self.entries.push((k, v));
                proof {
                    let n = old_keys.len();
                    assert(self.keys() =~= old_keys.push(k));
                    assert(self.keys()[n as int] == k);
                    assert forall|key: K| #[trigger] self@.contains_key(key) implies self@[key]
                        == old_map.insert(k, v)[key] by {
                        let j = self.keys().index_of(key);
                        assert(0 <= j < self.keys().len() && self.keys()[j] == key);
                        if key != k {
                            assert(j < n);
                            assert(old_keys[j] == key);
                            let j0 = old_keys.index_of(key);
                            assert(0 <= j0 < n && old_keys[j0] == key);
                            assert(self.keys()[j0] == key);
                        } else {
                            assert(j == n);
                        }
                    }
                    assert forall|key: K|
                        #[trigger] old_map.insert(k, v).contains_key(key) implies self@.contains_key(
                        key,
                    ) by {
                        if key != k {
                            let j0 = choose|j0: int| 0 <= j0 < n && old_keys[j0] == key;
                            assert(self.keys()[j0] == key);
                        }
                    }
                    assert(self@ =~= old_map.insert(k, v));
                }
            },
        }
    }
}

} // verus!
