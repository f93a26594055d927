//! A small map keyed by SSRC, the building block of every per-source structure.
use vstd::prelude::*;

verus! {

/// A finite map from SSRC to `V`, kept as two parallel vectors with distinct keys.
pub struct SsrcTable<V> {
    keys: Vec<u32>,
    vals: Vec<V>,
}

impl<V> SsrcTable<V> {
    /// The entries as a map.
    pub closed spec fn view(&self) -> Map<u32, V> {
        Map::new(
            |k: u32| self.keys@.contains(k),
            |k: u32| self.vals@[choose|i: int| 0 <= i < self.keys@.len() && self.keys@[i] == k],
        )
    }

    /// Keys distinct and one value for each key.
    pub closed spec fn wf(&self) -> bool {
        &&& self.keys@.len() == self.vals@.len()
        &&& self.keys@.no_duplicates()
    }

    proof fn lemma_value_at(&self, i: int)
        requires
            self.wf(),
            0 <= i < self.keys@.len(),
        ensures
            self@.contains_key(self.keys@[i]),
            self@[self.keys@[i]] == self.vals@[i],
    {
        let k = self.keys@[i];
        assert(self.keys@.contains(k));
        let j = choose|j: int| 0 <= j < self.keys@.len() && self.keys@[j] == k;
        assert(j == i);
    }

    /// An empty table.
    pub fn new() -> (r: Self)
        ensures
            r.wf(),
            r@ == Map::<u32, V>::empty(),
    {
        let r = SsrcTable { keys: Vec::new(), vals: Vec::new() };
        assert(r@ =~= Map::<u32, V>::empty());
        r
    }

    /// Where `k` stands in the key vector, if it is present.
    fn position(&self, k: u32) -> (r: Option<usize>)
        requires
            self.wf(),
        ensures
            r is None <==> !self@.contains_key(k),
            r matches Some(i) ==> i < self.keys@.len() && self.keys@[i as int] == k,
    {
        let mut i: usize = 0;
        while i < self.keys.len()
            invariant
                self.wf(),
                i <= self.keys@.len(),
                forall|j: int| 0 <= j < i ==> self.keys@[j] != k,
            decreases self.keys@.len() - i,
        {
            if self.keys[i] == k {
                return Some(i);
            }
            i = i + 1;
        }
        None
    }

    /// Whether `k` has an entry.
    pub fn contains_key(&self, k: u32) -> (r: bool)
        requires
            self.wf(),
        ensures
            r == self@.contains_key(k),
    {
        self.position(k).is_some()
    }

    /// The value stored under `k`.
    pub fn get(&self, k: u32) -> (r: Option<&V>)
        requires
            self.wf(),
        ensures
            r is None <==> !self@.contains_key(k),
            r matches Some(v) ==> *v == self@[k],
    {
        match self.position(k) {
            Some(i) => {
                proof {
                    self.lemma_value_at(i as int);
                }
                Some(&self.vals[i])
            },
            None => None,
        }
    }

    /// Stores `v` under `k`, handing back what was there before.
    pub fn insert(&mut self, k: u32, v: V) -> (r: Option<V>)
        requires
            old(self).wf(),
        ensures
            final(self).wf(),
            final(self)@ == old(self)@.insert(k, v),
            r is None <==> !old(self)@.contains_key(k),
            r matches Some(p) ==> p == old(self)@[k],
    {
        match self.position(k) {
            Some(i) => {
                proof {
                    self.lemma_value_at(i as int);
                }
                let mut v = v;
                std::mem::swap(&mut self.vals[i], &mut v);
                proof {
                    assert forall|j: int| 0 <= j < self.keys@.len() implies #[trigger] self@[self.keys@[j]]
                        == self.vals@[j] by {
                        self.lemma_value_at(j);
                    }
                    assert(self@ =~= old(self)@.insert(k, self.vals@[i as int]));
                }
                Some(v)
            },
            None => {
                self.keys.push(k);
                self.vals.push(v);
                proof {
                    assert forall|j: int| 0 <= j < self.keys@.len() implies #[trigger] self@[self.keys@[j]]
                        == self.vals@[j] by {
                        self.lemma_value_at(j);
                    }
                    assert forall|x: u32| #[trigger] self.keys@.contains(x) <==> (old(self).keys@.contains(x) || x == k) by {
                        if self.keys@.contains(x) && x != k {
                            let j = choose|j: int| 0 <= j < self.keys@.len() && self.keys@[j] == x;
                            assert(old(self).keys@[j] == x);
                        }
                        if old(self).keys@.contains(x) {
                            let j = choose|j: int| 0 <= j < old(self).keys@.len() && old(self).keys@[j] == x;
                            assert(self.keys@[j] == x);
                        }
                        if x == k {
                            assert(self.keys@[self.keys@.len() - 1] == x);
                        }
                    }
                    assert forall|x: u32| old(self)@.contains_key(x) implies self@[x] == old(self)@[x] by {
                        let j = choose|j: int| 0 <= j < old(self).keys@.len() && old(self).keys@[j] == x;
                        old(self).lemma_value_at(j);
                        self.lemma_value_at(j);
                    }
                    self.lemma_value_at(self.keys@.len() - 1);
                    assert(self@ =~= old(self)@.insert(k, v));
                }
                None
            },
        }
    }

    /// Removes the entry of `k`, handing back its value.
    pub fn remove(&mut self, k: u32) -> (r: Option<V>)
        requires
            old(self).wf(),
        ensures
            final(self).wf(),
            final(self)@ == old(self)@.remove(k),
            r is None <==> !old(self)@.contains_key(k),
            r matches Some(p) ==> p == old(self)@[k],
    {
        match self.position(k) {
            Some(i) => {
                proof {
                    self.lemma_value_at(i as int);
                }
                let ghost old_keys = self.keys@;
                let ghost old_vals = self.vals@;
                let ghost last = self.keys@.len() - 1;
                self.keys.swap_remove(i);
                let v = self.vals.swap_remove(i);
                proof {
                    assert(old_keys.no_duplicates());
                    assert forall|a: int, b: int|
                        0 <= a < self.keys@.len() && 0 <= b < self.keys@.len() && a != b implies
                        self.keys@[a] != self.keys@[b] by {
                        let oa = if a == i { last } else { a };
                        let ob = if b == i { last } else { b };
                        assert(self.keys@[a] == old_keys[oa]);
                        assert(self.keys@[b] == old_keys[ob]);
                    }
                    assert forall|x: u32| #[trigger] self.keys@.contains(x) <==> (old_keys.contains(x) && x != k) by {
                        if self.keys@.contains(x) {
                            let j = choose|j: int| 0 <= j < self.keys@.len() && self.keys@[j] == x;
                            let oj = if j == i { last } else { j };
                            assert(old_keys[oj] == x);
                            assert(oj != i);
                        }
                        if old_keys.contains(x) && x != k {
                            let j = choose|j: int| 0 <= j < old_keys.len() && old_keys[j] == x;
                            assert(j != i);
                            if j == last {
                                assert(self.keys@[i as int] == x);
                            } else {
                                assert(self.keys@[j] == x);
                            }
                        }
                    }
                    assert forall|x: u32| self@.contains_key(x) implies self@[x] == old(self)@[x] by {
                        let j = choose|j: int| 0 <= j < self.keys@.len() && self.keys@[j] == x;
                        let oj = if j == i { last } else { j };
                        self.lemma_value_at(j);
                        old(self).lemma_value_at(oj);
                    }
                    assert(self@ =~= old(self)@.remove(k));
                }
                Some(v)
            },
            None => {
                assert(self@ =~= old(self)@.remove(k));
                None
            },
        }
    }
}

impl SsrcTable<u64> {
    /// A key whose value is `v`, found by walking the entries.
    pub fn key_of(&self, v: u64) -> (r: Option<u32>)
        requires
            self.wf(),
        ensures
            r matches Some(k) ==> self@.contains_key(k) && self@[k] == v,
            r is None ==> forall|k: u32| #[trigger] self@.contains_key(k) ==> self@[k] != v,
    {
        let mut i: usize = 0;
        while i < self.keys.len()
            invariant
                self.wf(),
                i <= self.keys@.len(),
                forall|j: int| 0 <= j < i ==> self.vals@[j] != v,
            decreases self.keys@.len() - i,
        {
            if self.vals[i] == v {
                proof {
                    self.lemma_value_at(i as int);
                }
                return Some(self.keys[i]);
            }
            i = i + 1;
        }
        proof {
            assert forall|k: u32| #[trigger] self@.contains_key(k) implies self@[k] != v by {
                let j = choose|j: int| 0 <= j < self.keys@.len() && self.keys@[j] == k;
                self.lemma_value_at(j);
            }
        }
        None
    }
}

impl SsrcTable<Vec<i16>> {
    /// Appends `frame` to the buffer stored under `k`; `false`, and nothing
    /// changed, when `k` has no buffer.
    pub fn extend(&mut self, k: u32, frame: &[i16]) -> (r: bool)
        requires
            old(self).wf(),
        ensures
            final(self).wf(),
            r == old(self)@.contains_key(k),
            r ==> final(self)@ == old(self)@.insert(k, final(self)@[k]),
            r ==> final(self)@[k]@ == old(self)@[k]@ + frame@,
            !r ==> final(self)@ == old(self)@,
    {
        match self.position(k) {
            Some(i) => {
                proof {
                    self.lemma_value_at(i as int);
                }
                self.vals[i].extend_from_slice(frame);
                proof {
                    assert forall|j: int| 0 <= j < self.keys@.len() implies #[trigger] self@[self.keys@[j]]
                        == self.vals@[j] by {
                        self.lemma_value_at(j);
                    }
                    assert(self@ =~= old(self)@.insert(k, self.vals@[i as int]));
                }
                true
            },
            None => false,
        }
    }
}

} // verus!
