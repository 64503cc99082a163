use crate::text::str_eq;
use vstd::prelude::*;

verus! {

/// A finite map from strings, such as paths, to values, kept as a list of
/// pairs in which no string occurs twice.
#[derive(Debug)]
pub struct StringMap<V> {
    keys: Vec<String>,
    values: Vec<V>,
}

impl<V> StringMap<V> {
    /// The path of the pair at `i`.
    pub closed spec fn key_at(&self, i: int) -> Seq<char> {
        self.keys@[i]@
    }

    /// The value of the pair at `i`.
    pub closed spec fn value_at(&self, i: int) -> V {
        self.values@[i]
    }

    /// The number of pairs.
    pub closed spec fn count(&self) -> int {
        self.keys@.len() as int
    }

    /// Every pair has a path and a value, and no path occurs twice.
    pub closed spec fn wf(&self) -> bool {
        &&& self.keys@.len() == self.values@.len()
        &&& forall|i: int, j: int|
            0 <= i < j < self.count() ==> self.key_at(i) != self.key_at(j)
    }

    /// Whether a pair has the path `key`.
    pub closed spec fn has(&self, key: Seq<char>) -> bool {
        exists|i: int| 0 <= i < self.count() && self.key_at(i) == key
    }

    /// The place of the pair that has the path `key`.
    pub closed spec fn position(&self, key: Seq<char>) -> int {
        choose|i: int| 0 <= i < self.count() && self.key_at(i) == key
    }

    /// The map that the pairs make up.
    pub closed spec fn view(&self) -> Map<Seq<char>, V> {
        Map::new(|k: Seq<char>| self.has(k), |k: Seq<char>| self.value_at(self.position(k)))
    }

    /// The pair at `i` is what the map holds under its path.
    pub proof fn lemma_pair(&self, i: int)
        requires
            self.wf(),
            0 <= i < self.count(),
        ensures
            self@.contains_key(self.key_at(i)),
            self@[self.key_at(i)] == self.value_at(i),
    {
        assert(self.has(self.key_at(i)));
        let p = self.position(self.key_at(i));
        assert(p == i) by {
            if p < i {
                assert(self.key_at(p) != self.key_at(i));
            } else if i < p {
                assert(self.key_at(i) != self.key_at(p));
            }
        }
    }

    /// What the map holds under `key` stands in one of the pairs.
    pub proof fn lemma_position(&self, key: Seq<char>)
        requires
            self.wf(),
            self@.contains_key(key),
        ensures
            0 <= self.position(key) < self.count(),
            self.key_at(self.position(key)) == key,
            self.value_at(self.position(key)) == self@[key],
    {
        assert(self.has(key));
    }

    /// The map holds as many paths as there are pairs.
    pub proof fn lemma_count(&self)
        requires
            self.wf(),
        ensures
            self@.dom().finite(),
            self@.dom().len() == self.count(),
        decreases self.count(),
    {
        if self.count() == 0 {
            assert(self@.dom() =~= Set::<Seq<char>>::empty());
        } else {
            let front = StringMap { keys: self.keys, values: self.values };
            let n = self.count() - 1;
            let rest = Set::new(|k: Seq<char>| exists|i: int| 0 <= i < n && self.key_at(i) == k);
            Self::lemma_prefix_count(*self, n);
            assert(self@.dom() =~= Self::prefix_keys(*self, n).insert(self.key_at(n))) by {
                assert forall|k: Seq<char>| self@.dom().contains(k) implies Self::prefix_keys(
                    *self,
                    n,
                ).insert(self.key_at(n)).contains(k) by {
                    self.lemma_position(k);
                }
                assert forall|k: Seq<char>|
                    Self::prefix_keys(*self, n).insert(self.key_at(n)).contains(
                        k,
                    ) implies self@.dom().contains(k) by {
                    if k == self.key_at(n) {
                        self.lemma_pair(n);
                    } else {
                        let i = choose|i: int| 0 <= i < n && self.key_at(i) == k;
                        self.lemma_pair(i);
                    }
                }
            }
            assert(!Self::prefix_keys(*self, n).contains(self.key_at(n))) by {
                if Self::prefix_keys(*self, n).contains(self.key_at(n)) {
                    let i = choose|i: int| 0 <= i < n && self.key_at(i) == self.key_at(n);
                    self.lemma_unique(i, n);
                }
            }
        }
    }

    /// The paths of the first `n` pairs.
    pub closed spec fn prefix_keys(m: Self, n: int) -> Set<Seq<char>> {
        Set::new(|k: Seq<char>| exists|i: int| 0 <= i < n && m.key_at(i) == k)
    }

    proof fn lemma_prefix_count(m: Self, n: int)
        requires
            m.wf(),
            0 <= n <= m.count(),
        ensures
            Self::prefix_keys(m, n).finite(),
            Self::prefix_keys(m, n).len() == n,
        decreases n,
    {
        if n == 0 {
            assert(Self::prefix_keys(m, n) =~= Set::<Seq<char>>::empty());
        } else {
            Self::lemma_prefix_count(m, n - 1);
            assert(Self::prefix_keys(m, n) =~= Self::prefix_keys(m, n - 1).insert(
                m.key_at(n - 1),
            )) by {
                assert forall|k: Seq<char>| Self::prefix_keys(m, n).contains(
                    k,
                ) implies Self::prefix_keys(m, n - 1).insert(m.key_at(n - 1)).contains(k) by {
                    let i = choose|i: int| 0 <= i < n && m.key_at(i) == k;
                    if i < n - 1 {
                        assert(Self::prefix_keys(m, n - 1).contains(k));
                    }
                }
            }
            assert(!Self::prefix_keys(m, n - 1).contains(m.key_at(n - 1))) by {
                if Self::prefix_keys(m, n - 1).contains(m.key_at(n - 1)) {
                    let i = choose|i: int| 0 <= i < n - 1 && #[trigger] m.key_at(i) == m.key_at(n - 1);
                    m.lemma_unique(i, n - 1);
                }
            }
        }
    }

    /// The map that holds nothing.
    pub fn new() -> (r: Self)
        ensures
            r.wf(),
            r@ == Map::<Seq<char>, V>::empty(),
    {
        let r = StringMap { keys: Vec::new(), values: Vec::new() };
        assert(r@ =~= Map::<Seq<char>, V>::empty());
        r
    }

    /// The number of paths that the map holds.
    pub fn len(&self) -> (r: usize)
        requires
            self.wf(),
        ensures
            r == self.count(),
    {
        self.keys.len()
    }

    /// The place of the pair that has the string `key`.
    pub fn index_of(&self, key: &str) -> (r: Option<usize>)
        requires
            self.wf(),
        ensures
            match r {
                Some(i) => {
                    &&& i < self.count()
                    &&& self.key_at(i as int) == key@
                    &&& self@.contains_key(key@)
                    &&& self@[key@] == self.value_at(i as int)
                },
                None => !self@.contains_key(key@),
            },
    {
        let r = self.find(key);
        proof {
            if r is Some {
                self.lemma_pair(r->Some_0 as int);
            }
        }
        r
    }

    /// Puts `value` under `key`, under which the map holds nothing, and
    /// hands out the place of the new pair.
    pub fn insert_absent(&mut self, key: String, value: V) -> (r: usize)
        requires
            old(self).wf(),
            !old(self)@.contains_key(key@),
        ensures
            final(self).wf(),
            final(self)@ == old(self)@.insert(key@, value),
            r < final(self).count(),
            final(self).key_at(r as int) == key@,
            final(self).value_at(r as int) == value,
    {
        let at = self.keys.len();
        let ghost mid = *self;
        self.keys.push(key);
        self.values.push(value);
        proof {
            assert(self.wf()) by {
                assert forall|i: int, j: int| 0 <= i < j < self.count() implies self.key_at(i)
                    != self.key_at(j) by {
                    if j == mid.count() {
                        assert(mid.key_at(i) == self.key_at(i));
                        mid.lemma_pair(i);
                    } else {
                        assert(mid.key_at(i) == self.key_at(i));
                        assert(mid.key_at(j) == self.key_at(j));
                    }
                }
            }
            assert forall|k: Seq<char>| #[trigger]
                self@.contains_key(k) <==> (k == key@ || mid@.contains_key(k)) by {
                if self@.contains_key(k) {
                    self.lemma_position(k);
                    let p = self.position(k);
                    if p < mid.count() {
                        assert(mid.key_at(p) == k);
                        mid.lemma_pair(p);
                    }
                }
                if mid@.contains_key(k) {
                    mid.lemma_position(k);
                    let p = mid.position(k);
                    assert(self.key_at(p) == k);
                    self.lemma_pair(p);
                }
                if k == key@ {
                    assert(self.key_at(mid.count()) == k);
                    self.lemma_pair(mid.count());
                }
            }
            assert forall|k: Seq<char>| #[trigger] self@.contains_key(k) implies self@[k] == (if k
                == key@ {
                value
            } else {
                mid@[k]
            }) by {
                if k == key@ {
                    assert(self.key_at(mid.count()) == k);
                    self.lemma_pair(mid.count());
                } else {
                    mid.lemma_position(k);
                    let p = mid.position(k);
                    assert(self.key_at(p) == k);
                    assert(self.value_at(p) == mid.value_at(p));
                    self.lemma_pair(p);
                }
            }
            assert(self@ =~= mid@.insert(key@, value));
        }
        at
    }

    fn find(&self, key: &str) -> (r: Option<usize>)
        requires
            self.wf(),
        ensures
            match r {
                Some(i) => i < self.count() && self.key_at(i as int) == key@,
                None => !self.has(key@),
            },
    {
        let mut i: usize = 0;
        while i < self.keys.len()
            invariant
                i <= self.keys.len(),
                forall|k: int| 0 <= k < i ==> self.key_at(k) != key@,
            decreases self.keys.len() - i,
        {
            if str_eq(self.keys[i].as_str(), key) {
                return Some(i);
            }
            i = i + 1;
        }
        None
    }

    /// Whether the map holds something under `key`.
    pub fn contains_key(&self, key: &str) -> (r: bool)
        requires
            self.wf(),
        ensures
            r == self@.contains_key(key@),
    {
        self.find(key).is_some()
    }

    /// What the map holds under `key`.
    pub fn get(&self, key: &str) -> (r: Option<&V>)
        requires
            self.wf(),
        ensures
            match r {
                Some(v) => self@.contains_key(key@) && *v == self@[key@],
                None => !self@.contains_key(key@),
            },
    {
        match self.find(key) {
            Some(i) => {
                proof {
                    self.lemma_pair(i as int);
                }
                Some(&self.values[i])
            },
            None => None,
        }
    }

    /// Puts `value` under `key`, and hands out what was there before.
    pub fn insert(&mut self, key: String, value: V) -> (r: Option<V>)
        requires
            old(self).wf(),
        ensures
            final(self).wf(),
            final(self)@ == old(self)@.insert(key@, value),
            match r {
                Some(v) => old(self)@.contains_key(key@) && v == old(self)@[key@],
                None => !old(self)@.contains_key(key@),
            },
    {
        let r = self.remove(key.as_str());
        self.insert_absent(key, value);
        assert(self@ =~= old(self)@.insert(key@, value));
        r
    }

    /// Takes out what the map holds under `key`.
    pub fn remove(&mut self, key: &str) -> (r: Option<V>)
        requires
            old(self).wf(),
        ensures
            final(self).wf(),
            final(self)@ == old(self)@.remove(key@),
            match r {
                Some(v) => old(self)@.contains_key(key@) && v == old(self)@[key@],
                None => !old(self)@.contains_key(key@),
            },
    {
        match self.find(key) {
            None => {
                assert(self@ =~= old(self)@.remove(key@));
                None
            },
            Some(at) => {
                proof {
                    self.lemma_pair(at as int);
                }
                self.keys.remove(at);
                let value = self.values.remove(at);
                proof {
                    let before = *old(self);
                    let a = at as int;
                    assert forall|i: int| 0 <= i < self.count() implies #[trigger] self.key_at(i)
                        == before.key_at(if i < a {
                        i
                    } else {
                        i + 1
                    }) && self.value_at(i) == before.value_at(if i < a {
                        i
                    } else {
                        i + 1
                    }) by {}
                    assert(self.wf()) by {
                        assert forall|i: int, j: int| 0 <= i < j < self.count() implies self.key_at(
                            i,
                        ) != self.key_at(j) by {
                            let bi = if i < a {
                                i
                            } else {
                                i + 1
                            };
                            let bj = if j < a {
                                j
                            } else {
                                j + 1
                            };
                            assert(before.key_at(bi) != before.key_at(bj));
                        }
                    }
                    assert forall|k: Seq<char>| #[trigger]
                        self@.contains_key(k) <==> (k != key@ && before@.contains_key(k)) by {
                        if self@.contains_key(k) {
                            self.lemma_position(k);
                            let p = self.position(k);
                            let bp = if p < a {
                                p
                            } else {
                                p + 1
                            };
                            assert(before.key_at(bp) == k);
                            before.lemma_pair(bp);
                            if bp < a {
                                assert(before.key_at(bp) != before.key_at(a));
                            } else {
                                assert(before.key_at(a) != before.key_at(bp));
                            }
                        }
                        if k != key@ && before@.contains_key(k) {
                            before.lemma_position(k);
                            let bp = before.position(k);
                            let p = if bp < a {
                                bp
                            } else {
                                bp - 1
                            };
                            assert(self.key_at(p) == k);
                            self.lemma_pair(p);
                        }
                    }
                    assert forall|k: Seq<char>| #[trigger] self@.contains_key(k) implies self@[k]
                        == before@[k] by {
                        self.lemma_position(k);
                        let p = self.position(k);
                        let bp = if p < a {
                            p
                        } else {
                            p + 1
                        };
                        assert(before.key_at(bp) == k);
                        before.lemma_pair(bp);
                    }
                    assert(self@ =~= old(self)@.remove(key@));
                }
                Some(value)
            },
        }
    }
    /// The pair at `i` is the only one that has its path.
    pub proof fn lemma_unique(&self, i: int, j: int)
        requires
            self.wf(),
            0 <= i < self.count(),
            0 <= j < self.count(),
            self.key_at(i) == self.key_at(j),
        ensures
            i == j,
    {
        if i < j {
            assert(self.key_at(i) != self.key_at(j));
        } else if j < i {
            assert(self.key_at(j) != self.key_at(i));
        }
    }

    /// Changing the value of one pair changes the map under its path only.
    proof fn lemma_update(before: Self, after: Self, i: int)
        requires
            before.wf(),
            0 <= i < before.count(),
        ensures
            after.keys == before.keys && after.values@ == before.values@.update(
                i,
                after.values@[i],
            ) ==> after.wf() && after@ == before@.insert(before.key_at(i), after.value_at(i)),
    {
        if after.keys == before.keys && after.values@ == before.values@.update(
            i,
            after.values@[i],
        ) {
            Self::lemma_update_map(before, after, i);
        }
    }

    proof fn lemma_update_map(before: Self, after: Self, i: int)
        requires
            before.wf(),
            0 <= i < before.count(),
            after.keys == before.keys,
            after.values@ == before.values@.update(i, after.values@[i]),
        ensures
            after.wf(),
            after@ == before@.insert(before.key_at(i), after.value_at(i)),
    {
        assert forall|j: int| 0 <= j < before.count() implies #[trigger] after.key_at(j)
            == before.key_at(j) by {}
        assert forall|j: int| 0 <= j < before.count() && j != i implies #[trigger] after.value_at(
            j,
        ) == before.value_at(j) by {}
        assert(after.wf()) by {
            assert forall|a: int, b: int| 0 <= a < b < after.count() implies after.key_at(a)
                != after.key_at(b) by {
                assert(before.key_at(a) != before.key_at(b));
            }
        }
        let key = before.key_at(i);
        assert forall|k: Seq<char>| #[trigger]
            after@.contains_key(k) <==> (k == key || before@.contains_key(k)) by {
            if after@.contains_key(k) {
                after.lemma_position(k);
                let p = after.position(k);
                assert(before.key_at(p) == k);
                before.lemma_pair(p);
            }
            if before@.contains_key(k) {
                before.lemma_position(k);
                let p = before.position(k);
                assert(after.key_at(p) == k);
                after.lemma_pair(p);
            }
            if k == key {
                before.lemma_pair(i);
                assert(after.key_at(i) == k);
                after.lemma_pair(i);
            }
        }
        assert forall|k: Seq<char>| #[trigger] after@.contains_key(k) implies after@[k] == (if k
            == key {
            after.value_at(i)
        } else {
            before@[k]
        }) by {
            after.lemma_position(k);
            let p = after.position(k);
            assert(before.key_at(p) == k);
            before.lemma_pair(p);
            if k == key {
                before.lemma_unique(p, i);
            } else {
                assert(after.value_at(p) == before.value_at(p));
            }
        }
        assert(after@ =~= before@.insert(key, after.value_at(i)));
    }

    /// The value of the pair at `i`, to change it in place.
    pub fn value_mut_at(&mut self, i: usize) -> (r: &mut V)
        requires
            old(self).wf(),
            i < old(self).count(),
        ensures
            *r == old(self).value_at(i as int),
            final(self).wf(),
            final(self).count() == old(self).count(),
            forall|j: int|
                0 <= j < old(self).count() ==> #[trigger] final(self).key_at(j) == old(
                    self,
                ).key_at(j),
            forall|j: int|
                0 <= j < old(self).count() && j != i ==> #[trigger] final(self).value_at(j) == old(
                    self,
                ).value_at(j),
            final(self).value_at(i as int) == *final(r),
            final(self)@ == old(self)@.insert(old(self).key_at(i as int), *final(r)),
    {
        proof {
            Self::lemma_update(*old(self), *final(self), i as int);
        }
        &mut self.values[i]
    }

    /// What the map holds under `key`, to change it in place.
    pub fn get_mut(&mut self, key: &str) -> (r: Option<&mut V>)
        requires
            old(self).wf(),
        ensures
            match r {
                Some(v) => {
                    &&& old(self)@.contains_key(key@)
                    &&& *v == old(self)@[key@]
                    &&& final(self).wf()
                    &&& final(self)@ == old(self)@.insert(key@, *final(v))
                },
                None => !old(self)@.contains_key(key@) && *final(self) == *old(self),
            },
    {
        match self.find(key) {
            Some(i) => {
                proof {
                    self.lemma_pair(i as int);
                }
                Some(self.value_mut_at(i))
            },
            None => None,
        }
    }
}

} // verus!
