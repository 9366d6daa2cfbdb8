//! A map kept as a vector of entries in insertion order.
use vstd::prelude::*;

verus! {

/// A key that can be compared at run time, where the comparison is exact
/// equality.
pub trait MapKey: Sized {
    fn key_eq(&self, other: &Self) -> (r: bool)
        ensures
            r == (*self == *other),
    ;

    fn copy_key(&self) -> (r: Self)
        ensures
            r == *self,
    ;
}

impl MapKey for u16 {
    fn copy_key(&self) -> (r: Self) {
        *self
    }

    fn key_eq(&self, other: &Self) -> (r: bool) {
        *self == *other
    }
}

impl MapKey for u32 {
    fn copy_key(&self) -> (r: Self) {
        *self
    }

    fn key_eq(&self, other: &Self) -> (r: bool) {
        *self == *other
    }
}

impl MapKey for u128 {
    fn copy_key(&self) -> (r: Self) {
        *self
    }

    fn key_eq(&self, other: &Self) -> (r: bool) {
        *self == *other
    }
}

impl MapKey for (u32, u32) {
    fn copy_key(&self) -> (r: Self) {
        (self.0, self.1)
    }

    fn key_eq(&self, other: &Self) -> (r: bool) {
        self.0 == other.0 && self.1 == other.1
    }
}

impl MapKey for (u128, u32) {
    fn copy_key(&self) -> (r: Self) {
        (self.0, self.1)
    }

    fn key_eq(&self, other: &Self) -> (r: bool) {
        self.0 == other.0 && self.1 == other.1
    }
}

/// A map that stores its entries in a vector, in the order in which keys were
/// first inserted. No key occurs twice.
pub struct SmallMap<K, V> {
    entries: Vec<(K, V)>,
}

/// No key occurs twice in `s`.
pub open spec fn unique_keys<K, V>(s: Seq<(K, V)>) -> bool {
    forall|i: int, j: int| 0 <= i < s.len() && 0 <= j < s.len() && i != j ==> s[i].0 != s[j].0
}

impl<K, V> SmallMap<K, V> {
    /// The entries, in insertion order.
    pub closed spec fn entries(self) -> Seq<(K, V)> {
        self.entries@
    }

    /// No key occurs twice among the entries.
    #[verifier::type_invariant]
    pub open spec fn keys_are_unique(self) -> bool {
        unique_keys(self.entries())
    }

    /// `k` is a key of the map.
    pub open spec fn has(self, k: K) -> bool {
        exists|i: int| 0 <= i < self.entries().len() && self.entries()[i].0 == k
    }

    /// The position of key `k` among the entries.
    pub open spec fn index_of(self, k: K) -> int {
        choose|i: int| 0 <= i < self.entries().len() && self.entries()[i].0 == k
    }
}

impl<K, V> View for SmallMap<K, V> {
    type V = Map<K, V>;

    open spec fn view(&self) -> Map<K, V> {
        Map::new(|k: K| self.has(k), |k: K| self.entries()[self.index_of(k)].1)
    }
}

/// In a sequence with unique keys, the position of a key is the one position
/// that holds it.
pub proof fn lemma_index_of_unique<K, V>(m: SmallMap<K, V>, i: int)
    requires
        unique_keys(m.entries()),
        0 <= i < m.entries().len(),
    ensures
        m.has(m.entries()[i].0),
        m.index_of(m.entries()[i].0) == i,
        m@.contains_key(m.entries()[i].0),
        m@[m.entries()[i].0] == m.entries()[i].1,
{
    let k = m.entries()[i].0;
    assert(m.has(k));
    let j = m.index_of(k);
    assert(m.entries()[j].0 == k);
}

/// Two maps whose entries hold the same keys at the same positions have the
/// same keys, and each key sits at the same position in both.
pub proof fn lemma_aligned_keys<K, V, W>(a: SmallMap<K, V>, b: SmallMap<K, W>)
    requires
        unique_keys(a.entries()),
        a.entries().len() == b.entries().len(),
        forall|i: int| 0 <= i < a.entries().len() ==> #[trigger] a.entries()[i].0 == b.entries()[i].0,
    ensures
        unique_keys(b.entries()),
        a@.dom() == b@.dom(),
        forall|k: K| #[trigger]
            a@.contains_key(k) ==> 0 <= a.index_of(k) < a.entries().len() && b.index_of(k)
                == a.index_of(k) && a@[k] == a.entries()[a.index_of(k)].1 && b@[k]
                == b.entries()[a.index_of(k)].1,
{
    assert forall|i: int, j: int|
        0 <= i < b.entries().len() && 0 <= j < b.entries().len() && i != j implies b.entries()[i].0
        != b.entries()[j].0 by {
        assert(a.entries()[i].0 == b.entries()[i].0);
        assert(a.entries()[j].0 == b.entries()[j].0);
    }
    assert forall|k: K| #[trigger] a@.contains_key(k) == b@.contains_key(k) by {
        if a.has(k) {
            let i = a.index_of(k);
            assert(b.entries()[i].0 == k);
        }
        if b.has(k) {
            let i = b.index_of(k);
            assert(a.entries()[i].0 == k);
        }
    }
    assert(a@.dom() =~= b@.dom());
    assert forall|k: K| #[trigger] a@.contains_key(k) implies 0 <= a.index_of(k) < a.entries().len()
        && b.index_of(k) == a.index_of(k) && a@[k] == a.entries()[a.index_of(k)].1 && b@[k]
        == b.entries()[a.index_of(k)].1 by {
        let i = a.index_of(k);
        lemma_index_of_unique(a, i);
        assert(b.entries()[i].0 == k);
        lemma_index_of_unique(b, i);
    }
}

/// A map without entries is the empty map, and only it.
pub proof fn lemma_no_entries_iff_empty<K, V>(m: SmallMap<K, V>)
    ensures
        (m.entries().len() == 0) == (m@ == Map::<K, V>::empty()),
{
    if m.entries().len() == 0 {
        assert(m@ =~= Map::<K, V>::empty());
    } else {
        let k = m.entries()[0].0;
        assert(m.has(k));
        assert(m@.contains_key(k));
    }
}

/// The entries of `m` before position `i`, as a map.
pub open spec fn prefix_view<K, V>(m: SmallMap<K, V>, i: int) -> Map<K, V> {
    Map::new(|k: K| exists|a: int| 0 <= a < i && m.entries()[a].0 == k, |k: K| m@[k])
}

/// Walking the entries of `m` one at a time builds up its map.
pub proof fn lemma_prefix_view<K, V>(m: SmallMap<K, V>, i: int)
    requires
        unique_keys(m.entries()),
        0 <= i < m.entries().len(),
    ensures
        !prefix_view(m, i).contains_key(m.entries()[i].0),
        prefix_view(m, i + 1) == prefix_view(m, i).insert(m.entries()[i].0, m.entries()[i].1),
{
    let k = m.entries()[i].0;
    lemma_index_of_unique(m, i);
    assert forall|x: K| #[trigger] prefix_view(m, i + 1).contains_key(x) == prefix_view(m, i).insert(
        k,
        m.entries()[i].1,
    ).contains_key(x) by {
        if x == k {
            assert(m.entries()[i].0 == x);
        }
    }
    assert(prefix_view(m, i + 1) =~= prefix_view(m, i).insert(k, m.entries()[i].1));
}

/// No entry comes before the first, and all come before the end.
pub proof fn lemma_prefix_view_ends<K, V>(m: SmallMap<K, V>)
    requires
        unique_keys(m.entries()),
    ensures
        prefix_view(m, 0) == Map::<K, V>::empty(),
        prefix_view(m, m.entries().len() as int) == m@,
{
    assert(prefix_view(m, 0) =~= Map::<K, V>::empty());
    assert forall|x: K| #[trigger] prefix_view(m, m.entries().len() as int).contains_key(x)
        == m@.contains_key(x) by {
        if m.has(x) {
            let a = m.index_of(x);
            assert(m.entries()[a].0 == x);
        }
    }
    assert(prefix_view(m, m.entries().len() as int) =~= m@);
}

impl<K: MapKey, V> SmallMap<K, V> {
    /// An empty map.
    pub fn new() -> (r: Self)
        ensures
            r.entries() == Seq::<(K, V)>::empty(),
            r@ == Map::<K, V>::empty(),
    {
        let r = SmallMap { entries: Vec::new() };
        assert(r@ =~= Map::<K, V>::empty());
        r
    }

    /// The number of entries.
    pub fn len(&self) -> (r: usize)
        ensures
            r == self.entries().len(),
    {
        self.entries.len()
    }

    /// The keys, in insertion order.
    pub fn keys(&self) -> (r: Vec<K>)
        ensures
            r@.len() == self.entries().len(),
            forall|i: int| 0 <= i < r@.len() ==> #[trigger] r@[i] == self.entries()[i].0,
    {
        let mut r: Vec<K> = Vec::new();
        let mut i: usize = 0;
        while i < self.entries.len()
            invariant
                i <= self.entries@.len(),
                r@.len() == i,
                forall|j: int| 0 <= j < i ==> #[trigger] r@[j] == self.entries@[j].0,
            decreases self.entries@.len() - i,
        {
            r.push(self.entries[i].0.copy_key());
            i = i + 1;
        }
        r
    }

    /// The key of the entry at position `i`.
    pub fn key_at(&self, i: usize) -> (r: K)
        requires
            i < self.entries().len(),
        ensures
            r == self.entries()[i as int].0,
    {
        self.entries[i].0.copy_key()
    }

    /// The value of the entry at position `i`.
    pub fn value_at(&self, i: usize) -> (r: &V)
        requires
            i < self.entries().len(),
        ensures
            *r == self.entries()[i as int].1,
    {
        &self.entries[i].1
    }

    /// The position of key `k`, if it is a key of the map.
    pub fn find(&self, k: &K) -> (r: Option<usize>)
        ensures
            match r {
                Some(i) => i < self.entries().len() && self.entries()[i as int].0 == *k
                    && self.index_of(*k) == i,
                None => !self@.contains_key(*k),
            },
    {
        proof {
            use_type_invariant(self);
        }
        let mut i: usize = 0;
        while i < self.entries.len()
            invariant
                i <= self.entries@.len(),
                unique_keys(self.entries@),
                forall|j: int| 0 <= j < i ==> self.entries@[j].0 != *k,
            decreases self.entries@.len() - i,
        {
            if self.entries[i].0.key_eq(k) {
                proof {
                    lemma_index_of_unique(*self, i as int);
                }
                return Some(i);
            }
            i = i + 1;
        }
        None
    }

    /// Whether `k` is a key of the map.
    pub fn contains_key(&self, k: &K) -> (r: bool)
        ensures
            r == self@.contains_key(*k),
    {
        match self.find(k) {
            Some(i) => {
                proof {
                    use_type_invariant(self);
                    lemma_index_of_unique(*self, i as int);
                }
                true
            },
            None => false,
        }
    }

    /// The value stored under `k`.
    pub fn get(&self, k: &K) -> (r: Option<&V>)
        ensures
            r.is_some() == self@.contains_key(*k),
            r matches Some(v) ==> *v == self@[*k],
    {
        match self.find(k) {
            Some(i) => {
                proof {
                    use_type_invariant(self);
                    lemma_index_of_unique(*self, i as int);
                }
                Some(&self.entries[i].1)
            },
            None => None,
        }
    }

    /// Stores `v` under `k`. An existing entry keeps its position; a new one
    /// goes last. Returns the value that was replaced, if any.
    pub fn insert(&mut self, k: K, v: V) -> (r: Option<V>)
        ensures
            final(self)@ == old(self)@.insert(k, v),
            old(self)@.contains_key(k) ==> r == Some(old(self)@[k]) && final(self).entries()
                == old(self).entries().update(old(self).index_of(k), (k, v)),
            !old(self)@.contains_key(k) ==> r is None && final(self).entries() == old(self).entries().push(
                (k, v),
            ),
    {
        proof {
            use_type_invariant(&*self);
        }
        let ghost old_map = *self;
        let found = self.find(&k);
        let mut entries: Vec<(K, V)> = Vec::new();
        std::mem::swap(&mut entries, &mut self.entries);
        assert(entries@ == old_map.entries());
        let r = match found {
            Some(i) => {
                proof {
                    lemma_index_of_unique(old_map, i as int);
                }
                let (_, old_v) = entries.remove(i);
                entries.insert(i, (k, v));
                assert(entries@ =~= old_map.entries().update(i as int, (k, v)));
                Some(old_v)
            },
            None => {
                entries.push((k, v));
                None
            },
        };
        let ghost new_entries = entries@;
        assert(unique_keys(new_entries)) by {
            if found is None {
                assert forall|a: int| 0 <= a < old_map.entries().len() implies old_map.entries()[a].0
                    != k by {
                    if old_map.entries()[a].0 == k {
                        assert(old_map.has(k));
                    }
                }
            }
        }
        self.entries = entries;
        proof {
            let nm = *self;
            assert(nm.entries() == new_entries);
            assert forall|x: K| #[trigger] nm@.contains_key(x) == old_map@.insert(k, v).contains_key(x) by {
                if old_map.has(x) {
                    let a = old_map.index_of(x);
                    assert(nm.entries()[a].0 == x);
                }
                if x == k {
                    match found {
                        Some(i) => assert(nm.entries()[i as int].0 == k),
                        None => assert(nm.entries()[nm.entries().len() - 1].0 == k),
                    }
                }
                if nm.has(x) && x != k {
                    let a = nm.index_of(x);
                    assert(old_map.entries()[a].0 == x);
                }
            }
            assert forall|x: K| #[trigger] nm@.contains_key(x) implies nm@[x] == old_map@.insert(
                k,
                v,
            )[x] by {
                let a = nm.index_of(x);
                lemma_index_of_unique(nm, a);
                if x != k {
                    assert(old_map.entries()[a].0 == x);
                    lemma_index_of_unique(old_map, a);
                }
            }
            assert(nm@ =~= old_map@.insert(k, v));
        }
        r
    }
}

impl<K: MapKey, V> SmallMap<K, V> {
    /// Removes the entry of `k`, keeping the order of the others. Returns the
    /// value it held, if any.
    pub fn remove(&mut self, k: &K) -> (r: Option<V>)
        ensures
            final(self)@ == old(self)@.remove(*k),
            old(self)@.contains_key(*k) ==> r == Some(old(self)@[*k]) && final(self).entries()
                == old(self).entries().remove(old(self).index_of(*k)),
            !old(self)@.contains_key(*k) ==> r is None && final(self).entries() == old(self).entries(),
    {
        proof {
            use_type_invariant(&*self);
        }
        let ghost old_map = *self;
        let found = self.find(k);
        match found {
            None => None,
            Some(i) => {
                proof {
                    lemma_index_of_unique(old_map, i as int);
                }
                let mut entries: Vec<(K, V)> = Vec::new();
                std::mem::swap(&mut entries, &mut self.entries);
                let (_, old_v) = entries.remove(i);
                let ghost new_entries = entries@;
                assert(new_entries =~= old_map.entries().remove(i as int));
                assert(unique_keys(new_entries)) by {
                    assert forall|a: int, b: int|
                        0 <= a < new_entries.len() && 0 <= b < new_entries.len() && a != b implies new_entries[a].0
                        != new_entries[b].0 by {
                        let a2 = if a < i {
                            a
                        } else {
                            a + 1
                        };
                        let b2 = if b < i {
                            b
                        } else {
                            b + 1
                        };
                        assert(new_entries[a] == old_map.entries()[a2]);
                        assert(new_entries[b] == old_map.entries()[b2]);
                    }
                }
                self.entries = entries;
                proof {
                    let nm = *self;
                    assert(nm.entries() == new_entries);
                    assert forall|x: K| #[trigger] nm@.contains_key(x) == old_map@.remove(
                        *k,
                    ).contains_key(x) by {
                        if old_map.has(x) && x != *k {
                            let a = old_map.index_of(x);
                            assert(a != i);
                            let a2 = if a < i {
                                a
                            } else {
                                a - 1
                            };
                            assert(nm.entries()[a2].0 == x);
                        }
                        if nm.has(x) {
                            let a = nm.index_of(x);
                            let a2 = if a < i {
                                a
                            } else {
                                a + 1
                            };
                            assert(old_map.entries()[a2].0 == x);
                            assert(x != *k);
                        }
                    }
                    assert forall|x: K| #[trigger] nm@.contains_key(x) implies nm@[x] == old_map@[x] by {
                        let a = nm.index_of(x);
                        lemma_index_of_unique(nm, a);
                        let a2 = if a < i {
                            a
                        } else {
                            a + 1
                        };
                        assert(old_map.entries()[a2] == nm.entries()[a]);
                        lemma_index_of_unique(old_map, a2);
                    }
                    assert(nm@ =~= old_map@.remove(*k));
                }
                Some(old_v)
            },
        }
    }
}

impl<K: MapKey, V: Copy> SmallMap<K, V> {
    /// A copy of the map, with its entries in the same order.
    pub fn copied(&self) -> (r: Self)
        ensures
            r@ == self@,
            r.entries() == self.entries(),
    {
        proof {
            use_type_invariant(self);
        }
        let mut entries: Vec<(K, V)> = Vec::new();
        let mut i: usize = 0;
        while i < self.entries.len()
            invariant
                i <= self.entries@.len(),
                entries@ == self.entries@.take(i as int),
            decreases self.entries@.len() - i,
        {
            let k = self.entries[i].0.copy_key();
            let v = self.entries[i].1;
            entries.push((k, v));
            assert(entries@ =~= self.entries@.take(i + 1));
            i = i + 1;
        }
        assert(entries@ =~= self.entries@);
        let r = SmallMap { entries };
        assert(r@ =~= self@);
        r
    }
}

} // verus!
