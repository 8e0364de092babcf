//! A map kept as a list of entries with distinct keys. Its walk order is
//! the order in which keys were first inserted, which callers are not told:
//! like a hash map's, it is some order.
use vstd::prelude::*;

verus! {

/// Values that can be copied with their content kept.
pub trait Duplicate: View + Sized {
    fn duplicate(&self) -> (r: Self)
        ensures
            r@ == self@,
    ;
}

impl Duplicate for String {
    fn duplicate(&self) -> (r: Self) {
        self.clone()
    }
}

/// Keys compared by their content.
pub trait MapKey: View + Sized {
    fn same_key(&self, other: &Self) -> (r: bool)
        ensures
            r == (self@ == other@),
    ;

    fn copy_key(&self) -> (r: Self)
        ensures
            r@ == self@,
    ;
}

impl MapKey for String {
    fn same_key(&self, other: &Self) -> (r: bool) {
        *self == *other
    }

    fn copy_key(&self) -> (r: Self) {
        self.clone()
    }
}

impl MapKey for u32 {
    fn same_key(&self, other: &Self) -> (r: bool) {
        *self == *other
    }

    fn copy_key(&self) -> (r: Self) {
        *self
    }
}

pub struct KeyMap<K, T> {
    entries: Vec<(K, T)>,
}

/// A map with string keys.
pub type StrMap<T> = KeyMap<String, T>;

impl<K: View, T: View> KeyMap<K, T> {
    /// Entry `i` holds key `k`.
    pub closed spec fn has_key_at(&self, k: K::V, i: int) -> bool {
        0 <= i < self.entries@.len() && self.entries@[i].0@ == k
    }

    /// No key is held by two entries.
    pub closed spec fn well_formed(&self) -> bool {
        forall|i: int, j: int|
            0 <= i < j < self.entries@.len() ==> #[trigger] self.entries@[i].0@
                != #[trigger] self.entries@[j].0@
    }

    /// The keys in walk order.
    pub closed spec fn key_order(&self) -> Seq<K::V> {
        self.entries@.map_values(|e: (K, T)| e.0@)
    }

    proof fn lemma_at(&self, k: K::V, i: int)
        requires
            self.well_formed(),
            self.has_key_at(k, i),
        ensures
            self@.dom().contains(k),
            self@[k] == self.entries@[i].1@,
    {
        let j = choose|j: int| self.has_key_at(k, j);
        assert(j == i);
    }

    /// The walk order lists each key of the map once.
    pub proof fn lemma_key_order(&self)
        requires
            self.well_formed(),
        ensures
            self.key_order().no_duplicates(),
            self.key_order().to_set() == self@.dom(),
    {
        let ks = self.key_order();
        assert forall|i: int, j: int| 0 <= i < ks.len() && 0 <= j < ks.len() && i != j implies ks[i]
            != ks[j] by {
            if i < j {
                assert(self.entries@[i].0@ != self.entries@[j].0@);
            } else {
                assert(self.entries@[j].0@ != self.entries@[i].0@);
            }
        }
        assert forall|k: K::V| ks.to_set().contains(k) <==> self@.dom().contains(k) by {
            if ks.contains(k) {
                let i = choose|i: int| 0 <= i < ks.len() && ks[i] == k;
                assert(self.has_key_at(k, i));
            }
            if self@.dom().contains(k) {
                let i = choose|i: int| self.has_key_at(k, i);
                assert(ks[i] == k);
            }
        }
        assert(ks.to_set() =~= self@.dom());
    }
}

impl<K: View, T: View> View for KeyMap<K, T> {
    type V = Map<K::V, T::V>;

    closed spec fn view(&self) -> Map<K::V, T::V> {
        Map::new(
            |k: K::V| exists|i: int| self.has_key_at(k, i),
            |k: K::V| self.entries@[choose|i: int| self.has_key_at(k, i)].1@,
        )
    }
}

impl<K: MapKey, T: View + Duplicate> KeyMap<K, T> {
    pub fn new() -> (r: Self)
        ensures
            r.well_formed(),
            r@ == Map::<K::V, T::V>::empty(),
    {
        let r = KeyMap { entries: Vec::new() };
        assert(r@ =~= Map::<K::V, T::V>::empty());
        r
    }

    fn index_of_key(&self, key: &K) -> (r: Option<usize>)
        requires
            self.well_formed(),
        ensures
            match r {
                Some(i) => self.has_key_at(key@, i as int),
                None => !self@.dom().contains(key@),
            },
    {
        let mut i: usize = 0;
        while i < self.entries.len()
            invariant
                i <= self.entries.len(),
                forall|j: int| 0 <= j < i ==> !#[trigger] self.has_key_at(key@, j),
            decreases self.entries.len() - i,
        {
            if self.entries[i].0.same_key(key) {
                return Some(i);
            }
            i += 1;
        }
        assert(!self@.dom().contains(key@)) by {
            if self@.dom().contains(key@) {
                let j = choose|j: int| self.has_key_at(key@, j);
                assert(!self.has_key_at(key@, j));
            }
        }
        None
    }

    /// The value under `key`.
    pub fn get(&self, key: &K) -> (r: Option<T>)
        requires
            self.well_formed(),
        ensures
            match r {
                Some(v) => self@.dom().contains(key@) && v@ == self@[key@],
                None => !self@.dom().contains(key@),
            },
    {
        match self.index_of_key(key) {
            Some(i) => {
                proof {
                    self.lemma_at(key@, i as int);
                }
                Some(self.entries[i].1.duplicate())
            },
            None => None,
        }
    }

    pub fn contains_key(&self, key: &K) -> (r: bool)
        requires
            self.well_formed(),
        ensures
            r == self@.dom().contains(key@),
    {
        match self.index_of_key(key) {
            Some(i) => {
                proof {
                    self.lemma_at(key@, i as int);
                }
                true
            },
            None => false,
        }
    }

    /// Puts `value` under `key`, replacing what was there.
    pub fn insert(&mut self, key: &K, value: T)
        requires
            old(self).well_formed(),
        ensures
            final(self).well_formed(),
            final(self)@ == old(self)@.insert(key@, value@),
    {
        let ghost before = *self;
        let ghost vv = value@;
        match self.index_of_key(key) {
            Some(i) => {
                let k = self.entries[i].0.copy_key();
                self.entries.set(i, (k, value));
                assert(forall|j: int| 0 <= j < self.entries@.len() ==> #[trigger] self.entries@[j].0@
                    == before.entries@[j].0@);
                assert forall|k2: K::V| #[trigger]
                    self@.dom().contains(k2) <==> before@.insert(key@, vv).dom().contains(k2) by {
                    if self@.dom().contains(k2) {
                        let j = choose|j: int| self.has_key_at(k2, j);
                        assert(before.has_key_at(k2, j));
                    }
                    if before@.dom().contains(k2) {
                        let j = choose|j: int| before.has_key_at(k2, j);
                        assert(self.has_key_at(k2, j));
                    }
                    if k2 == key@ {
                        assert(self.has_key_at(k2, i as int));
                    }
                }
                assert forall|k2: K::V| #[trigger] self@.dom().contains(k2) implies self@[k2]
                    == before@.insert(key@, vv)[k2] by {
                    let j = choose|j: int| self.has_key_at(k2, j);
                    self.lemma_at(k2, j);
                    if k2 != key@ {
                        before.lemma_at(k2, j);
                    } else {
                        assert(j == i);
                    }
                }
                assert(self@ =~= before@.insert(key@, vv));
            },
            None => {
                self.entries.push((key.copy_key(), value));
                let ghost n = before.entries@.len();
                assert forall|j: int| 0 <= j < n implies before.entries@[j].0@ != key@ by {
                    if before.entries@[j].0@ == key@ {
                        assert(before.has_key_at(key@, j));
                    }
                }
                assert forall|a: int, b: int| 0 <= a < b < self.entries@.len() implies #[trigger] self.entries@[a].0@
                    != #[trigger] self.entries@[b].0@ by {
                    if b < n {
                        assert(before.entries@[a].0@ != before.entries@[b].0@);
                    }
                }
                assert(self.has_key_at(key@, n as int));
                assert forall|k2: K::V| #[trigger]
                    self@.dom().contains(k2) <==> before@.insert(key@, vv).dom().contains(k2) by {
                    if self@.dom().contains(k2) {
                        let j = choose|j: int| self.has_key_at(k2, j);
                        if j < n {
                            assert(before.has_key_at(k2, j));
                        }
                    }
                    if before@.dom().contains(k2) {
                        let j = choose|j: int| before.has_key_at(k2, j);
                        assert(self.has_key_at(k2, j));
                    }
                }
                assert forall|k2: K::V| #[trigger] self@.dom().contains(k2) implies self@[k2]
                    == before@.insert(key@, vv)[k2] by {
                    let j = choose|j: int| self.has_key_at(k2, j);
                    self.lemma_at(k2, j);
                    if k2 != key@ {
                        assert(j < n);
                        before.lemma_at(k2, j);
                    } else {
                        assert(j == n);
                    }
                }
                assert(self@ =~= before@.insert(key@, vv));
            },
        }
    }

    /// Removes what is under `key`.
    pub fn remove(&mut self, key: &K)
        requires
            old(self).well_formed(),
        ensures
            final(self).well_formed(),
            final(self)@ == old(self)@.remove(key@),
    {
        let ghost before = *self;
        match self.index_of_key(key) {
            Some(i) => {
                self.entries.remove(i);
                assert forall|k2: K::V| #[trigger]
                    self@.dom().contains(k2) <==> before@.remove(key@).dom().contains(k2) by {
                    if self@.dom().contains(k2) {
                        let j = choose|j: int| self.has_key_at(k2, j);
                        if j < i {
                            assert(before.has_key_at(k2, j));
                        } else {
                            assert(before.has_key_at(k2, j + 1));
                        }
                    }
                    if before@.dom().contains(k2) && k2 != key@ {
                        let j = choose|j: int| before.has_key_at(k2, j);
                        if j < i {
                            assert(self.has_key_at(k2, j));
                        } else {
                            assert(j != i);
                            assert(self.has_key_at(k2, j - 1));
                        }
                    }
                }
                assert forall|k2: K::V| #[trigger] self@.dom().contains(k2) implies self@[k2]
                    == before@.remove(key@)[k2] by {
                    let j = choose|j: int| self.has_key_at(k2, j);
                    self.lemma_at(k2, j);
                    if j < i {
                        before.lemma_at(k2, j);
                    } else {
                        before.lemma_at(k2, j + 1);
                    }
                }
                assert(self@ =~= before@.remove(key@));
            },
            None => {
                assert(self@ =~= before@.remove(key@));
            },
        }
    }

    /// Removes every entry.
    pub fn clear(&mut self)
        ensures
            final(self).well_formed(),
            final(self)@ == Map::<K::V, T::V>::empty(),
    {
        self.entries.clear();
        assert(self@ =~= Map::<K::V, T::V>::empty());
    }

    /// Every value, in walk order.
    pub fn values(&self) -> (r: Vec<T>)
        requires
            self.well_formed(),
        ensures
            r@.len() == self.key_order().len(),
            forall|i: int| 0 <= i < r@.len() ==> (#[trigger] r@[i])@ == self@[self.key_order()[i]],
    {
        let mut r: Vec<T> = Vec::new();
        let mut i: usize = 0;
        while i < self.entries.len()
            invariant
                i <= self.entries.len(),
                self.well_formed(),
                r@.len() == i,
                forall|j: int| 0 <= j < i ==> (#[trigger] r@[j])@ == self@[self.key_order()[j]],
            decreases self.entries.len() - i,
        {
            proof {
                self.lemma_at(self.key_order()[i as int], i as int);
            }
            r.push(self.entries[i].1.duplicate());
            i += 1;
        }
        r
    }

    /// Every entry, in walk order.
    pub fn to_pairs(&self) -> (r: Vec<(K, T)>)
        requires
            self.well_formed(),
        ensures
            r@.len() == self.key_order().len(),
            forall|i: int|
                0 <= i < r@.len() ==> (#[trigger] r@[i]).0@ == self.key_order()[i] && r@[i].1@
                    == self@[self.key_order()[i]],
    {
        let mut r: Vec<(K, T)> = Vec::new();
        let mut i: usize = 0;
        while i < self.entries.len()
            invariant
                i <= self.entries.len(),
                self.well_formed(),
                r@.len() == i,
                forall|j: int|
                    0 <= j < i ==> (#[trigger] r@[j]).0@ == self.key_order()[j] && r@[j].1@
                        == self@[self.key_order()[j]],
            decreases self.entries.len() - i,
        {
            proof {
                self.lemma_at(self.key_order()[i as int], i as int);
            }
            r.push((self.entries[i].0.copy_key(), self.entries[i].1.duplicate()));
            i += 1;
        }
        r
    }

    /// The map holding `pairs`, a later pair winning over an earlier one with
    /// the same key.
    pub fn from_pairs(pairs: Vec<(K, T)>) -> (r: Self)
        ensures
            r.well_formed(),
            r@ == pairs_map(pairs@, pairs@.len() as int),
    {
        let mut r = Self::new();
        let mut i: usize = 0;
        while i < pairs.len()
            invariant
                i <= pairs.len(),
                r.well_formed(),
                r@ == pairs_map(pairs@, i as int),
            decreases pairs.len() - i,
        {
            let value = pairs[i].1.duplicate();
            r.insert(&pairs[i].0, value);
            i += 1;
        }
        r
    }
}

/// The map that inserting the first `n` of `pairs` in order gives.
pub open spec fn pairs_map<K: View, T: View>(pairs: Seq<(K, T)>, n: int) -> Map<K::V, T::V>
    decreases n,
{
    if n <= 0 {
        Map::empty()
    } else {
        pairs_map(pairs, n - 1).insert(pairs[n - 1].0@, pairs[n - 1].1@)
    }
}

proof fn lemma_pairs_prefix<K: View, T: View>(m: KeyMap<K, T>, pairs: Seq<(K, T)>, n: int)
    requires
        m.well_formed(),
        0 <= n <= pairs.len(),
        pairs.len() == m.key_order().len(),
        forall|i: int|
            0 <= i < pairs.len() ==> (#[trigger] pairs[i]).0@ == m.key_order()[i] && pairs[i].1@
                == m@[m.key_order()[i]],
    ensures
        forall|k: K::V| #[trigger]
            pairs_map(pairs, n).dom().contains(k) <==> m.key_order().take(n).contains(k),
        forall|k: K::V| #[trigger]
            pairs_map(pairs, n).dom().contains(k) ==> pairs_map(pairs, n)[k] == m@[k],
    decreases n,
{
    let ks = m.key_order();
    if n == 0 {
        assert(ks.take(0) =~= Seq::<K::V>::empty());
    } else {
        lemma_pairs_prefix(m, pairs, n - 1);
        assert forall|k: K::V| #[trigger] ks.take(n).contains(k) <==> ks.take(n - 1).contains(k) || k
            == ks[n - 1] by {
            if ks.take(n).contains(k) {
                let j = choose|j: int| 0 <= j < n && ks.take(n)[j] == k;
                if j < n - 1 {
                    assert(ks.take(n - 1)[j] == k);
                }
            }
            let prev = ks.take(n - 1);
            if prev.contains(k) {
                let j = choose|j: int| 0 <= j < prev.len() && #[trigger] prev[j] == k;
                assert(ks.take(n)[j] == k);
            }
            if k == ks[n - 1] {
                assert(ks.take(n)[n - 1] == k);
            }
        }
        let last = pairs[n - 1];
        assert(last.0@ == ks[n - 1] && last.1@ == m@[ks[n - 1]]);
        assert forall|k: K::V| #[trigger]
            pairs_map(pairs, n).dom().contains(k) <==> ks.take(n).contains(k) by {
            assert(pairs_map(pairs, n).dom().contains(k) <==> pairs_map(pairs, n - 1).dom().contains(k)
                || k == last.0@);
            assert(ks.take(n).contains(k) <==> ks.take(n - 1).contains(k) || k == ks[n - 1]);
        }
        assert forall|k: K::V| #[trigger]
            pairs_map(pairs, n).dom().contains(k) implies pairs_map(pairs, n)[k] == m@[k] by {
            if k != last.0@ {
                assert(pairs_map(pairs, n - 1).dom().contains(k));
            }
        }
    }
}

/// Writing a map out as the entries `to_pairs` lists and reading them back
/// with `from_pairs` gives the same map: a state saved and loaded again is
/// the state that was saved.
pub proof fn lemma_pairs_roundtrip<K: View, T: View>(m: KeyMap<K, T>, pairs: Seq<(K, T)>)
    requires
        m.well_formed(),
        pairs.len() == m.key_order().len(),
        forall|i: int|
            0 <= i < pairs.len() ==> (#[trigger] pairs[i]).0@ == m.key_order()[i] && pairs[i].1@
                == m@[m.key_order()[i]],
    ensures
        pairs_map(pairs, pairs.len() as int) == m@,
{
    let ks = m.key_order();
    m.lemma_key_order();
    lemma_pairs_prefix(m, pairs, pairs.len() as int);
    assert(ks.take(ks.len() as int) =~= ks);
    assert forall|k: K::V| #[trigger] ks.contains(k) <==> m@.dom().contains(k) by {
        assert(ks.to_set().contains(k) <==> ks.contains(k));
    }
    assert(pairs_map(pairs, pairs.len() as int) =~= m@);
}

} // verus!

verus! {

impl Duplicate for u64 {
    fn duplicate(&self) -> (r: Self) {
        *self
    }
}

} // verus!
