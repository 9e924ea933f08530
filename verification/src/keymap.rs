//! Finite maps with byte-string or string keys, used for the per-session
//! registries and the manager's directories. Each map is an association list
//! whose keys are kept distinct; its mathematical content is a vstd `Map`.

use vstd::prelude::*;

verus! {

/// Compares two byte strings for equality.
pub fn bytes_eq(a: &Vec<u8>, b: &Vec<u8>) -> (r: bool)
    ensures
        r == (a@ == b@),
{
    if a.len() != b.len() {
        return false;
    }
    let mut i: usize = 0;
    while i < a.len()
        invariant
            a@.len() == b@.len(),
            i <= a@.len(),
            forall|j: int| 0 <= j < i ==> a@[j] == b@[j],
        decreases a@.len() - i,
    {
        if a[i] != b[i] {
            return false;
        }
        i = i + 1;
    }
    proof {
        assert(a@ =~= b@);
    }
    true
}

/// Copies a byte string.
pub fn bytes_clone(a: &Vec<u8>) -> (r: Vec<u8>)
    ensures
        r@ == a@,
{
    let mut r: Vec<u8> = Vec::new();
    let mut i: usize = 0;
    while i < a.len()
        invariant
            i <= a@.len(),
            r@ == a@.subrange(0, i as int),
        decreases a@.len() - i,
    {
        r.push(a[i]);
        i = i + 1;
        proof {
            assert(a@.subrange(0, i as int) =~= r@);
        }
    }
    proof {
        assert(a@.subrange(0, a@.len() as int) =~= a@);
    }
    r
}

/// True when some entry of `s` carries the key `k`.
pub open spec fn assoc_has_key<K: View, V>(s: Seq<(K, V)>, k: K::V) -> bool {
    exists|i: int| 0 <= i < s.len() && s[i].0@ == k
}

/// The index of the entry of `s` carrying the key `k`.
pub open spec fn assoc_index_of<K: View, V>(s: Seq<(K, V)>, k: K::V) -> int {
    choose|i: int| 0 <= i < s.len() && s[i].0@ == k
}

/// The finite map described by an association list.
pub open spec fn assoc_map<K: View, V>(s: Seq<(K, V)>) -> Map<K::V, V> {
    Map::new(|k: K::V| assoc_has_key(s, k), |k: K::V| s[assoc_index_of(s, k)].1)
}

/// No two entries of `s` carry the same key.
pub open spec fn assoc_keys_distinct<K: View, V>(s: Seq<(K, V)>) -> bool {
    forall|i: int, j: int| 0 <= i < j < s.len() ==> s[i].0@ != s[j].0@
}

/// Each entry of a distinct-keyed association list is a pair of its map.
proof fn lemma_assoc_get<K: View, V>(s: Seq<(K, V)>, i: int)
    requires
        assoc_keys_distinct(s),
        0 <= i < s.len(),
    ensures
        assoc_map(s).dom().contains(s[i].0@),
        assoc_map(s)[s[i].0@] == s[i].1,
{
    assert(assoc_has_key(s, s[i].0@));
    let j = assoc_index_of(s, s[i].0@);
    assert(0 <= j < s.len() && s[j].0@ == s[i].0@);
    if i < j {
        assert(s[i].0@ != s[j].0@);
    } else if j < i {
        assert(s[j].0@ != s[i].0@);
    }
    assert(j == i);
}

/// Appending an entry whose key is absent inserts it into the map.
proof fn lemma_assoc_push<K: View, V>(s: Seq<(K, V)>, key: K, value: V)
    requires
        assoc_keys_distinct(s),
        !assoc_has_key(s, key@),
    ensures
        assoc_keys_distinct(s.push((key, value))),
        assoc_map(s.push((key, value))) == assoc_map(s).insert(key@, value),
{
    let t = s.push((key, value));
    assert forall|i: int, j: int| 0 <= i < j < t.len() implies t[i].0@ != t[j].0@ by {
        if j < s.len() {
        } else {
            assert(t[j] == (key, value));
            if t[i].0@ == key@ {
                assert(assoc_has_key(s, key@));
            }
        }
    }
    let m1 = assoc_map(t);
    let m2 = assoc_map(s).insert(key@, value);
    assert forall|k: K::V| m1.dom().contains(k) <==> m2.dom().contains(k) by {
        if assoc_has_key(t, k) {
            let i = choose|i: int| 0 <= i < t.len() && t[i].0@ == k;
            if i < s.len() {
                assert(assoc_has_key(s, k));
            }
        }
        if assoc_has_key(s, k) {
            let i = choose|i: int| 0 <= i < s.len() && s[i].0@ == k;
            assert(t[i].0@ == k);
            assert(assoc_has_key(t, k));
        }
        if k == key@ {
            assert(t[s.len() as int].0@ == k);
            assert(assoc_has_key(t, k));
        }
    }
    assert forall|k: K::V| m1.dom().contains(k) implies m1[k] == m2[k] by {
        let i = assoc_index_of(t, k);
        assert(0 <= i < t.len() && t[i].0@ == k);
        lemma_assoc_get(t, i);
        if k == key@ {
            if i < s.len() {
                assert(assoc_has_key(s, key@));
            }
            assert(m1[k] == value);
        } else {
            assert(i < s.len());
            assert(s[i] == t[i]);
            lemma_assoc_get(s, i);
        }
    }
    assert(m1 =~= m2);
}

/// Removing the entry at index `i` removes its key from the map.
proof fn lemma_assoc_remove_idx<K: View, V>(s: Seq<(K, V)>, i: int)
    requires
        assoc_keys_distinct(s),
        0 <= i < s.len(),
    ensures
        assoc_keys_distinct(s.remove(i)),
        assoc_map(s.remove(i)) == assoc_map(s).remove(s[i].0@),
{
    let t = s.remove(i);
    let k0 = s[i].0@;
    assert forall|p: int, q: int| 0 <= p < q < t.len() implies t[p].0@ != t[q].0@ by {
        let p0 = if p < i { p } else { p + 1 };
        let q0 = if q < i { q } else { q + 1 };
        assert(t[p] == s[p0]);
        assert(t[q] == s[q0]);
    }
    let m1 = assoc_map(t);
    let m2 = assoc_map(s).remove(k0);
    assert forall|k: K::V| m1.dom().contains(k) <==> m2.dom().contains(k) by {
        if assoc_has_key(t, k) {
            let p = choose|p: int| 0 <= p < t.len() && t[p].0@ == k;
            let p0 = if p < i { p } else { p + 1 };
            assert(t[p] == s[p0]);
            assert(assoc_has_key(s, k));
            if k == k0 {
                assert(s[p0].0@ == s[i].0@);
                assert(p0 == i);
            }
        }
        if assoc_has_key(s, k) && k != k0 {
            let p0 = choose|p0: int| 0 <= p0 < s.len() && s[p0].0@ == k;
            assert(p0 != i);
            let p = if p0 < i { p0 } else { p0 - 1 };
            assert(t[p] == s[p0]);
            assert(assoc_has_key(t, k));
        }
    }
    assert forall|k: K::V| m1.dom().contains(k) implies m1[k] == m2[k] by {
        let p = assoc_index_of(t, k);
        assert(0 <= p < t.len() && t[p].0@ == k);
        lemma_assoc_get(t, p);
        let p0 = if p < i { p } else { p + 1 };
        assert(t[p] == s[p0]);
        lemma_assoc_get(s, p0);
    }
    assert(m1 =~= m2);
}

/// Map from byte-string keys to values.
pub struct KeyMap<V> {
    entries: Vec<(Vec<u8>, V)>,
}

impl<V> View for KeyMap<V> {
    type V = Map<Seq<u8>, V>;

    closed spec fn view(&self) -> Map<Seq<u8>, V> {
        assoc_map(self.entries@)
    }
}

impl<V> KeyMap<V> {
    #[verifier::type_invariant]
    spec fn inv(&self) -> bool {
        assoc_keys_distinct(self.entries@)
    }

    /// The empty map.
    pub fn new() -> (r: Self)
        ensures
            r@ == Map::<Seq<u8>, V>::empty(),
    {
        let r = KeyMap { entries: Vec::new() };
        proof {
            assert(r@ =~= Map::<Seq<u8>, V>::empty());
        }
        r
    }

    fn find_index(&self, key: &Vec<u8>) -> (r: Option<usize>)
        ensures
            match r {
                Some(i) => i < self.entries@.len() && self.entries@[i as int].0@ == key@,
                None => !assoc_has_key(self.entries@, key@),
            },
    {
        let mut i: usize = 0;
        while i < self.entries.len()
            invariant
                i <= self.entries@.len(),
                forall|j: int| 0 <= j < i ==> self.entries@[j].0@ != key@,
            decreases self.entries@.len() - i,
        {
            if bytes_eq(&self.entries[i].0, key) {
                return Some(i);
            }
            i = i + 1;
        }
        None
    }

    /// Whether `key` is bound.
    pub fn contains_key(&self, key: &Vec<u8>) -> (r: bool)
        ensures
            r == self@.dom().contains(key@),
    {
        proof {
            use_type_invariant(&*self);
        }
        match self.find_index(key) {
            Some(i) => {
                proof {
                    lemma_assoc_get(self.entries@, i as int);
                }
                true
            },
            None => false,
        }
    }

    /// The value bound to `key`, when one is.
    pub fn get(&self, key: &Vec<u8>) -> (r: Option<&V>)
        ensures
            match r {
                Some(v) => self@.dom().contains(key@) && *v == self@[key@],
                None => !self@.dom().contains(key@),
            },
    {
        proof {
            use_type_invariant(&*self);
        }
        match self.find_index(key) {
            Some(i) => {
                proof {
                    lemma_assoc_get(self.entries@, i as int);
                }
                Some(&self.entries[i].1)
            },
            None => None,
        }
    }

    /// Unbinds `key`; returns the value it was bound to, when one was.
    pub fn remove(&mut self, key: &Vec<u8>) -> (r: Option<V>)
        ensures
            final(self)@ == old(self)@.remove(key@),
            match r {
                Some(v) => old(self)@.dom().contains(key@) && v == old(self)@[key@],
                None => !old(self)@.dom().contains(key@),
            },
    {
        proof {
            use_type_invariant(&*self);
        }
        match self.find_index(key) {
            Some(i) => {
                proof {
                    lemma_assoc_get(self.entries@, i as int);
                    lemma_assoc_remove_idx(self.entries@, i as int);
                }
                let mut entries = Vec::new();
                std::mem::swap(&mut entries, &mut self.entries);
                let e = entries.remove(i);
                self.entries = entries;
                Some(e.1)
            },
            None => {
                proof {
                    assert(self@ =~= self@.remove(key@));
                }
                None
            },
        }
    }

    /// Binds `key` to `value`, replacing any earlier binding.
    pub fn insert(&mut self, key: Vec<u8>, value: V)
        ensures
            final(self)@ == old(self)@.insert(key@, value),
    {
        let ghost m0 = self@;
        self.remove(&key);
        proof {
            use_type_invariant(&*self);
            if assoc_has_key(self.entries@, key@) {
                let i = choose|i: int|
                    0 <= i < self.entries@.len() && self.entries@[i].0@ == key@;
                lemma_assoc_get(self.entries@, i);
            }
            lemma_assoc_push(self.entries@, key, value);
        }
        let mut entries = Vec::new();
        std::mem::swap(&mut entries, &mut self.entries);
        entries.push((key, value));
        self.entries = entries;
        proof {
            assert(final(self)@ =~= m0.insert(key@, value));
        }
    }

    /// Unbinds every key.
    pub fn clear(&mut self)
        ensures
            final(self)@ == Map::<Seq<u8>, V>::empty(),
    {
        self.entries = Vec::new();
        proof {
            assert(self@ =~= Map::<Seq<u8>, V>::empty());
        }
    }

    /// The entries themselves: exactly one per key of the map.
    pub fn entries_ref(&self) -> (r: &Vec<(Vec<u8>, V)>)
        ensures
            forall|i: int|
                0 <= i < r@.len() ==> self@.contains_pair(#[trigger] r@[i].0@, r@[i].1),
            forall|i: int, j: int| 0 <= i < j < r@.len() ==> r@[i].0@ != r@[j].0@,
            forall|k: Seq<u8>|
                self@.dom().contains(k) ==> exists|i: int|
                    0 <= i < r@.len() && #[trigger] r@[i].0@ == k,
            r@.len() == 0 <==> self@ == Map::<Seq<u8>, V>::empty(),
    {
        proof {
            use_type_invariant(&*self);
            assert forall|i: int|
                0 <= i < self.entries@.len() implies self@.contains_pair(
                #[trigger] self.entries@[i].0@,
                self.entries@[i].1,
            ) by {
                lemma_assoc_get(self.entries@, i);
            }
            if self.entries@.len() == 0 {
                assert(self@ =~= Map::<Seq<u8>, V>::empty());
            } else {
                lemma_assoc_get(self.entries@, 0);
            }
        }
        &self.entries
    }

    /// Empties the map, handing back its entries: exactly one per key.
    pub fn drain(&mut self) -> (r: Vec<(Vec<u8>, V)>)
        ensures
            final(self)@ == Map::<Seq<u8>, V>::empty(),
            forall|i: int|
                0 <= i < r@.len() ==> old(self)@.contains_pair(#[trigger] r@[i].0@, r@[i].1),
            forall|i: int, j: int| 0 <= i < j < r@.len() ==> r@[i].0@ != r@[j].0@,
            forall|k: Seq<u8>|
                old(self)@.dom().contains(k) ==> exists|i: int|
                    0 <= i < r@.len() && #[trigger] r@[i].0@ == k,
    {
        proof {
            use_type_invariant(&*self);
            assert forall|i: int|
                0 <= i < self.entries@.len() implies self@.contains_pair(
                #[trigger] self.entries@[i].0@,
                self.entries@[i].1,
            ) by {
                lemma_assoc_get(self.entries@, i);
            }
        }
        let mut entries = Vec::new();
        std::mem::swap(&mut entries, &mut self.entries);
        proof {
            assert(self@ =~= Map::<Seq<u8>, V>::empty());
        }
        entries
    }

    /// The number of keys that are bound.
    pub fn len(&self) -> (r: usize)
        ensures
            r == self@.dom().len(),
            self@.dom().finite(),
    {
        proof {
            use_type_invariant(&*self);
            let keys = self.entries@.map_values(|e: (Vec<u8>, V)| e.0@);
            assert forall|k: Seq<u8>| self@.dom().contains(k) implies keys.to_set().contains(
                k,
            ) by {
                let i = assoc_index_of(self.entries@, k);
                assert(0 <= i < self.entries@.len() && self.entries@[i].0@ == k);
                assert(keys[i] == k);
            }
            assert forall|k: Seq<u8>| keys.to_set().contains(k) implies self@.dom().contains(
                k,
            ) by {
                let i = choose|i: int| 0 <= i < keys.len() && keys[i] == k;
                assert(self.entries@[i].0@ == k);
            }
            assert(self@.dom() =~= keys.to_set());
            assert(keys.no_duplicates());
            keys.unique_seq_to_set();
        }
        self.entries.len()
    }
}

/// Map from string keys to values.
pub struct StrMap<V> {
    entries: Vec<(String, V)>,
}

impl<V> View for StrMap<V> {
    type V = Map<Seq<char>, V>;

    closed spec fn view(&self) -> Map<Seq<char>, V> {
        assoc_map(self.entries@)
    }
}

impl<V> StrMap<V> {
    #[verifier::type_invariant]
    spec fn inv(&self) -> bool {
        assoc_keys_distinct(self.entries@)
    }

    /// The empty map.
    pub fn new() -> (r: Self)
        ensures
            r@ == Map::<Seq<char>, V>::empty(),
    {
        let r = StrMap { entries: Vec::new() };
        proof {
            assert(r@ =~= Map::<Seq<char>, V>::empty());
        }
        r
    }

    fn find_index(&self, key: &String) -> (r: Option<usize>)
        ensures
            match r {
                Some(i) => i < self.entries@.len() && self.entries@[i as int].0@ == key@,
                None => !assoc_has_key(self.entries@, key@),
            },
    {
        let mut i: usize = 0;
        while i < self.entries.len()
            invariant
                i <= self.entries@.len(),
                forall|j: int| 0 <= j < i ==> self.entries@[j].0@ != key@,
            decreases self.entries@.len() - i,
        {
            if self.entries[i].0.eq(key) {
                return Some(i);
            }
            i = i + 1;
        }
        None
    }

    /// Whether `key` is bound.
    pub fn contains_key(&self, key: &String) -> (r: bool)
        ensures
            r == self@.dom().contains(key@),
    {
        proof {
            use_type_invariant(&*self);
        }
        match self.find_index(key) {
            Some(i) => {
                proof {
                    lemma_assoc_get(self.entries@, i as int);
                }
                true
            },
            None => false,
        }
    }

    /// The value bound to `key`, when one is.
    pub fn get(&self, key: &String) -> (r: Option<&V>)
        ensures
            match r {
                Some(v) => self@.dom().contains(key@) && *v == self@[key@],
                None => !self@.dom().contains(key@),
            },
    {
        proof {
            use_type_invariant(&*self);
        }
        match self.find_index(key) {
            Some(i) => {
                proof {
                    lemma_assoc_get(self.entries@, i as int);
                }
                Some(&self.entries[i].1)
            },
            None => None,
        }
    }

    /// Binds `key` to `value`, replacing any earlier binding.
    pub fn insert(&mut self, key: String, value: V)
        ensures
            final(self)@ == old(self)@.insert(key@, value),
    {
        let ghost m0 = self@;
        proof {
            use_type_invariant(&*self);
        }
        match self.find_index(&key) {
            Some(i) => {
                proof {
                    lemma_assoc_get(self.entries@, i as int);
                    lemma_assoc_remove_idx(self.entries@, i as int);
                }
                let mut entries = Vec::new();
                std::mem::swap(&mut entries, &mut self.entries);
                entries.remove(i);
                self.entries = entries;
            },
            None => {
            },
        }
        proof {
            use_type_invariant(&*self);
            if assoc_has_key(self.entries@, key@) {
                let i = choose|i: int|
                    0 <= i < self.entries@.len() && self.entries@[i].0@ == key@;
                lemma_assoc_get(self.entries@, i);
                assert(self@.dom().contains(key@));
            }
            lemma_assoc_push(self.entries@, key, value);
        }
        let mut entries = Vec::new();
        std::mem::swap(&mut entries, &mut self.entries);
        entries.push((key, value));
        self.entries = entries;
        proof {
            assert(final(self)@ =~= m0.insert(key@, value));
        }
    }

    /// The entries themselves: exactly one per key of the map.
    pub fn entries_ref(&self) -> (r: &Vec<(String, V)>)
        ensures
            forall|i: int|
                0 <= i < r@.len() ==> self@.contains_pair(#[trigger] r@[i].0@, r@[i].1),
            forall|i: int, j: int| 0 <= i < j < r@.len() ==> r@[i].0@ != r@[j].0@,
            forall|k: Seq<char>|
                self@.dom().contains(k) ==> exists|i: int|
                    0 <= i < r@.len() && #[trigger] r@[i].0@ == k,
            r@.len() == 0 <==> self@ == Map::<Seq<char>, V>::empty(),
    {
        proof {
            use_type_invariant(&*self);
            assert forall|i: int|
                0 <= i < self.entries@.len() implies self@.contains_pair(
                #[trigger] self.entries@[i].0@,
                self.entries@[i].1,
            ) by {
                lemma_assoc_get(self.entries@, i);
            }
            if self.entries@.len() == 0 {
                assert(self@ =~= Map::<Seq<char>, V>::empty());
            } else {
                lemma_assoc_get(self.entries@, 0);
            }
        }
        &self.entries
    }
}

} // verus!
