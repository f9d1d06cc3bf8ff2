use vstd::prelude::*;

verus! {

/// Entries keyed by an index, held in a list sorted by index.
#[derive(Debug)]
pub struct Slots<T> {
    pub entries: Vec<(usize, T)>,
}

impl<T: View> View for Slots<T> {
    type V = Seq<(usize, T::V)>;

    open spec fn view(&self) -> Seq<(usize, T::V)> {
        self.entries@.map_values(|e: (usize, T)| (e.0, e.1@))
    }
}

/// Indices strictly increase along the list.
pub open spec fn sorted<V>(v: Seq<(usize, V)>) -> bool {
    forall|i: int, j: int| 0 <= i < j < v.len() ==> #[trigger] v[i].0 < #[trigger] v[j].0
}

/// Some entry has index `k`.
pub open spec fn has_index<V>(v: Seq<(usize, V)>, k: usize) -> bool {
    exists|i: int| 0 <= i < v.len() && #[trigger] v[i].0 == k
}

/// The position of the entry with index `k`, where there is one.
pub open spec fn pos_of<V>(v: Seq<(usize, V)>, k: usize) -> int {
    choose|i: int| 0 <= i < v.len() && #[trigger] v[i].0 == k
}

/// The entries as a map from index to value.
pub open spec fn to_map<V>(v: Seq<(usize, V)>) -> Map<usize, V> {
    Map::new(|k: usize| has_index(v, k), |k: usize| v[pos_of(v, k)].1)
}

/// The indices are exactly 0, 1, ..., n - 1 for n entries: no gaps.
pub open spec fn dense<V>(v: Seq<(usize, V)>) -> bool {
    forall|i: int| 0 <= i < v.len() ==> #[trigger] v[i].0 == i
}

/// In a sorted list, an index is found at one position only.
pub proof fn lemma_pos_unique<V>(v: Seq<(usize, V)>, i: int, k: usize)
    requires
        sorted(v),
        0 <= i < v.len(),
        v[i].0 == k,
    ensures
        has_index(v, k),
        pos_of(v, k) == i,
{
    let j = pos_of(v, k);
    assert(v[j].0 == k);
    if i < j {
        assert(v[i].0 < v[j].0);
    } else if j < i {
        assert(v[j].0 < v[i].0);
    }
}

/// The map of a sorted list holds an entry for each index in the list.
pub proof fn lemma_map_at<V>(v: Seq<(usize, V)>, i: int)
    requires
        sorted(v),
        0 <= i < v.len(),
    ensures
        to_map(v).contains_key(v[i].0),
        to_map(v)[v[i].0] == v[i].1,
{
    lemma_pos_unique(v, i, v[i].0);
}

/// A dense list has exactly the indices below its length.
pub proof fn lemma_dense_domain<V>(v: Seq<(usize, V)>)
    requires
        sorted(v),
    ensures
        dense(v) <==> (forall|k: usize| #[trigger] to_map(v).contains_key(k) <==> k < v.len()),
{
    if dense(v) {
        assert forall|k: usize| #[trigger] to_map(v).contains_key(k) <==> k < v.len() by {
            if k < v.len() {
                assert(v[k as int].0 == k);
            }
            if to_map(v).contains_key(k) {
                let p = pos_of(v, k);
                assert(v[p].0 == p);
            }
        }
    }
    if forall|k: usize| #[trigger] to_map(v).contains_key(k) <==> k < v.len() {
        assert forall|i: int| 0 <= i < v.len() implies #[trigger] v[i].0 == i by {
            lemma_dense_prefix(v, i);
        }
    }
}

/// In a sorted list holding exactly the indices below its length, index j sits
/// at position j.
proof fn lemma_dense_prefix<V>(v: Seq<(usize, V)>, i: int)
    requires
        sorted(v),
        0 <= i < v.len(),
        forall|k: usize| #[trigger] to_map(v).contains_key(k) <==> k < v.len(),
    ensures
        forall|j: int| 0 <= j <= i ==> #[trigger] v[j].0 == j,
    decreases i,
{
    if i > 0 {
        lemma_dense_prefix(v, i - 1);
        assert(v[i - 1].0 < v[i].0);
    }
    let k = i as usize;
    assert(to_map(v).contains_key(k));
    let p = pos_of(v, k);
    assert(v[p].0 == k);
    if p < i {
        assert(v[p].0 == p);
    } else if p > i {
        assert(v[i].0 < v[p].0);
    }
}

impl<T: View> Slots<T> {
    /// The invariant: indices are strictly increasing.
    pub open spec fn wf(&self) -> bool {
        sorted(self@)
    }

    /// The entries as a map from index to value.
    pub open spec fn map(&self) -> Map<usize, T::V> {
        to_map(self@)
    }

    /// No entries.
    pub fn new() -> (r: Slots<T>)
        ensures
            r.wf(),
            r@ == Seq::<(usize, T::V)>::empty(),
    {
        let r = Slots { entries: Vec::new() };
        assert(r@ =~= Seq::<(usize, T::V)>::empty());
        r
    }

    /// Whether the indices strictly increase.
    pub fn check_sorted(&self) -> (r: bool)
        ensures
            r == self.wf(),
    {
        let mut i: usize = 1;
        if self.entries.len() == 0 {
            return true;
        }
        while i < self.entries.len()
            invariant
                1 <= i <= self@.len(),
                self@.len() == self.entries@.len(),
                forall|a: int, b: int| 0 <= a < b < i ==> #[trigger] self@[a].0 < #[trigger] self@[b].0,
            decreases self.entries@.len() - i,
        {
            if self.entries[i - 1].0 >= self.entries[i].0 {
                assert(self@[i - 1].0 >= self@[i as int].0);
                return false;
            }
            assert forall|a: int, b: int| 0 <= a < b < i + 1 implies #[trigger] self@[a].0 < #[trigger] self@[b].0 by {
                if b == i && a < i - 1 {
                    assert(self@[a].0 < self@[i - 1].0);
                }
            }
            i = i + 1;
        }
        true
    }

    /// Where index `k` is, or where it would go.
    fn locate(&self, k: usize) -> (r: (usize, bool))
        requires
            self.wf(),
        ensures
            r.0 <= self@.len(),
            r.1 <==> has_index(self@, k),
            r.1 ==> r.0 < self@.len() && self@[r.0 as int].0 == k && pos_of(self@, k) == r.0,
            !r.1 ==> forall|i: int| 0 <= i < r.0 ==> #[trigger] self@[i].0 < k,
            !r.1 ==> forall|i: int| r.0 <= i < self@.len() ==> #[trigger] self@[i].0 > k,
    {
        let mut i: usize = 0;
        while i < self.entries.len()
            invariant
                self.wf(),
                i <= self@.len(),
                self@.len() == self.entries@.len(),
                forall|j: int| 0 <= j < i ==> #[trigger] self@[j].0 < k,
            decreases self.entries@.len() - i,
        {
            let idx = self.entries[i].0;
            assert(self@[i as int].0 == idx);
            if idx == k {
                proof {
                    lemma_pos_unique(self@, i as int, k);
                }
                return (i, true);
            }
            if idx > k {
                assert forall|j: int| i <= j < self@.len() implies #[trigger] self@[j].0 > k by {
                    if j > i {
                        assert(self@[i as int].0 < self@[j].0);
                    }
                }
                return (i, false);
            }
            i = i + 1;
        }
        (i, false)
    }

    /// The value at index `k`, if there is one.
    pub fn get(&self, k: usize) -> (r: Option<&T>)
        requires
            self.wf(),
        ensures
            r is Some <==> self.map().contains_key(k),
            r matches Some(t) ==> t@ == self.map()[k],
    {
        let (p, found) = self.locate(k);
        if found {
            assert(self@[p as int].1 == self.entries@[p as int].1@);
            Some(&self.entries[p].1)
        } else {
            None
        }
    }

    /// Puts `item` at index `k`, handing back what was there before.
    pub fn insert(&mut self, k: usize, item: T) -> (r: Option<T>)
        requires
            old(self).wf(),
        ensures
            final(self).wf(),
            final(self).map() == old(self).map().insert(k, item@),
            r is Some <==> old(self).map().contains_key(k),
            r matches Some(t) ==> t@ == old(self).map()[k],
    {
        let ghost v = self@;
        let ghost x = item@;
        let (p, found) = self.locate(k);
        if found {
            let (_, prev) = self.entries.remove(p);
            self.entries.insert(p, (k, item));
            let ghost w = self@;
            assert(w =~= v.update(p as int, (k, x)));
            assert(sorted(w)) by {
                assert forall|i: int, j: int| 0 <= i < j < w.len() implies #[trigger] w[i].0 < #[trigger] w[j].0 by {
                    assert(v[i].0 < v[j].0);
                }
            }
            proof {
                self.lemma_map_update(v, p as int, k, x);
            }
            Some(prev)
        } else {
            self.entries.insert(p, (k, item));
            let ghost w = self@;
            assert(w =~= v.insert(p as int, (k, x)));
            assert(sorted(w)) by {
                assert forall|i: int, j: int| 0 <= i < j < w.len() implies #[trigger] w[i].0 < #[trigger] w[j].0 by {
                    if j < p {
                        assert(v[i].0 < v[j].0);
                    } else if j == p {
                    } else if i < p {
                        assert(w[j] == v[j - 1]);
                    } else if i == p {
                        assert(w[j] == v[j - 1]);
                    } else {
                        assert(v[i - 1].0 < v[j - 1].0);
                    }
                }
            }
            assert(to_map(w) =~= to_map(v).insert(k, x)) by {
                assert forall|key: usize| #[trigger] to_map(w).contains_key(key) <==> to_map(v).insert(k, x).contains_key(key) by {
                    if to_map(w).contains_key(key) {
                        let q = pos_of(w, key);
                        if q < p {
                            lemma_map_at(v, q);
                        } else if q > p {
                            lemma_map_at(v, q - 1);
                        }
                    }
                    if has_index(v, key) {
                        let q = pos_of(v, key);
                        if q < p {
                            lemma_map_at(w, q);
                        } else {
                            lemma_map_at(w, q + 1);
                        }
                    }
                    if key == k {
                        lemma_map_at(w, p as int);
                    }
                }
                assert forall|key: usize| #[trigger] to_map(w).contains_key(key) implies to_map(w)[key] == to_map(v).insert(k, x)[key] by {
                    let q = pos_of(w, key);
                    lemma_map_at(w, q);
                    if q < p {
                        lemma_map_at(v, q);
                    } else if q > p {
                        lemma_map_at(v, q - 1);
                    }
                }
            }
            None
        }
    }

    proof fn lemma_map_update(&self, v: Seq<(usize, T::V)>, p: int, k: usize, x: T::V)
        requires
            sorted(v),
            0 <= p < v.len(),
            v[p].0 == k,
            self@ == v.update(p, (k, x)),
            sorted(self@),
        ensures
            to_map(self@) == to_map(v).insert(k, x),
    {
        let w = self@;
        assert(to_map(w) =~= to_map(v).insert(k, x)) by {
            assert forall|key: usize| #[trigger] to_map(w).contains_key(key) <==> to_map(v).insert(k, x).contains_key(key) by {
                if to_map(w).contains_key(key) {
                    lemma_map_at(v, pos_of(w, key));
                }
                if has_index(v, key) {
                    lemma_map_at(w, pos_of(v, key));
                }
                if key == k {
                    lemma_map_at(w, p);
                }
            }
            assert forall|key: usize| #[trigger] to_map(w).contains_key(key) implies to_map(w)[key] == to_map(v).insert(k, x)[key] by {
                let q = pos_of(w, key);
                lemma_map_at(w, q);
                lemma_map_at(v, q);
            }
        }
    }

    /// Takes out the value at index `k`, if there is one.
    pub fn remove(&mut self, k: usize) -> (r: Option<T>)
        requires
            old(self).wf(),
        ensures
            final(self).wf(),
            final(self).map() == old(self).map().remove(k),
            r is Some <==> old(self).map().contains_key(k),
            r is None ==> *final(self) == *old(self),
            r matches Some(t) ==> t@ == old(self).map()[k],
    {
        let ghost v = self@;
        let (p, found) = self.locate(k);
        if found {
            let (_, prev) = self.entries.remove(p);
            let ghost w = self@;
            assert(w =~= v.remove(p as int));
            assert(sorted(w)) by {
                assert forall|i: int, j: int| 0 <= i < j < w.len() implies #[trigger] w[i].0 < #[trigger] w[j].0 by {
                    let i2 = if i < p { i } else { i + 1 };
                    let j2 = if j < p { j } else { j + 1 };
                    assert(v[i2].0 < v[j2].0);
                }
            }
            assert(to_map(w) =~= to_map(v).remove(k)) by {
                assert forall|key: usize| #[trigger] to_map(w).contains_key(key) <==> to_map(v).remove(k).contains_key(key) by {
                    if to_map(w).contains_key(key) {
                        let q = pos_of(w, key);
                        let q2 = if q < p { q } else { q + 1 };
                        lemma_map_at(v, q2);
                        assert(v[q2].0 != k) by {
                            if q2 < p { assert(v[q2].0 < v[p as int].0); } else { assert(v[p as int].0 < v[q2].0); }
                        }
                    }
                    if has_index(v, key) && key != k {
                        let q = pos_of(v, key);
                        assert(q != p);
                        lemma_map_at(w, if q < p { q } else { q - 1 });
                    }
                }
                assert forall|key: usize| #[trigger] to_map(w).contains_key(key) implies to_map(w)[key] == to_map(v).remove(k)[key] by {
                    let q = pos_of(w, key);
                    lemma_map_at(w, q);
                    lemma_map_at(v, if q < p { q } else { q + 1 });
                }
            }
            Some(prev)
        } else {
            assert(!to_map(v).contains_key(k));
            assert(to_map(v).remove(k) =~= to_map(v));
            None
        }
    }
}

} // verus!
