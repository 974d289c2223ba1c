//! An association table that keeps the order in which keys were first added.
use crate::datum::{Datum, Dup};
use vstd::prelude::*;

verus! {

/// The position of the first pair with key `k`, or the length if there is none.
pub open spec fn pair_index<K, V>(s: Seq<(K, V)>, k: K) -> int
    decreases s.len(),
{
    if s.len() == 0 {
        0
    } else if s[0].0 == k {
        0
    } else {
        1 + pair_index(s.drop_first(), k)
    }
}

/// The value of the first pair with key `k`.
pub open spec fn pair_get<K, V>(s: Seq<(K, V)>, k: K) -> Option<V> {
    if pair_index(s, k) < s.len() {
        Some(s[pair_index(s, k)].1)
    } else {
        None
    }
}

/// The pairs after storing `v` under `k`.
pub open spec fn pair_set<K, V>(s: Seq<(K, V)>, k: K, v: V) -> Seq<(K, V)> {
    if pair_index(s, k) < s.len() {
        s.update(pair_index(s, k), (k, v))
    } else {
        s.push((k, v))
    }
}

/// The pairs without the keys equal to `k`.
pub open spec fn pair_drop<K, V>(s: Seq<(K, V)>, k: K) -> Seq<(K, V)>
    decreases s.len(),
{
    if s.len() == 0 {
        s
    } else if s.last().0 == k {
        pair_drop(s.drop_last(), k)
    } else {
        pair_drop(s.drop_last(), k).push(s.last())
    }
}

/// The map that a sequence of pairs denotes: the first pair of a key counts.
pub open spec fn pair_map<K, V>(s: Seq<(K, V)>) -> Map<K, V> {
    Map::new(|k: K| pair_index(s, k) < s.len(), |k: K| s[pair_index(s, k)].1)
}

pub proof fn lemma_pair_index<K, V>(s: Seq<(K, V)>, k: K)
    ensures
        0 <= pair_index(s, k) <= s.len(),
        pair_index(s, k) < s.len() ==> s[pair_index(s, k)].0 == k,
        forall|i: int| 0 <= i < pair_index(s, k) ==> (#[trigger] s[i]).0 != k,
    decreases s.len(),
{
    if s.len() > 0 && s[0].0 != k {
        lemma_pair_index(s.drop_first(), k);
        assert forall|i: int| 0 <= i < pair_index(s, k) implies (#[trigger] s[i]).0 != k by {
            if i > 0 {
                assert(s.drop_first()[i - 1].0 != k);
            }
        }
    }
}

pub proof fn lemma_pair_index_unique<K, V>(s: Seq<(K, V)>, k: K, i: int)
    requires
        0 <= i <= s.len(),
        i < s.len() ==> s[i].0 == k,
        forall|j: int| 0 <= j < i ==> (#[trigger] s[j]).0 != k,
    ensures
        pair_index(s, k) == i,
{
    lemma_pair_index(s, k);
}

pub proof fn lemma_pair_set_map<K, V>(s: Seq<(K, V)>, k: K, v: V)
    ensures
        pair_map(pair_set(s, k, v)) == pair_map(s).insert(k, v),
{
    let t = pair_set(s, k, v);
    lemma_pair_index(s, k);
    assert forall|q: K| #[trigger] pair_map(t).contains_key(q) == pair_map(s).insert(k, v).contains_key(q)
        && (pair_map(t).contains_key(q) ==> pair_map(t)[q] == pair_map(s).insert(k, v)[q]) by {
        lemma_pair_index(s, q);
        lemma_pair_index(t, q);
        if q == k {
            lemma_pair_index_unique(t, k, pair_index(s, k));
        } else if pair_index(s, q) < s.len() {
            lemma_pair_index_unique(t, q, pair_index(s, q));
        } else {
            lemma_pair_index_unique(t, q, t.len() as int);
        }
    }
    assert(pair_map(t) =~= pair_map(s).insert(k, v));
}

pub proof fn lemma_pair_drop<K, V>(s: Seq<(K, V)>, k: K)
    ensures
        pair_drop(s, k).len() <= s.len(),
        pair_map(pair_drop(s, k)) == pair_map(s).remove(k),
    decreases s.len(),
{
    if s.len() == 0 {
        assert(pair_map(s) =~= pair_map(s).remove(k));
    } else {
        let front = s.drop_last();
        lemma_pair_drop(front, k);
        let rest = pair_drop(front, k);
        let t = pair_drop(s, k);
        assert forall|q: K| #[trigger] pair_map(t).contains_key(q) == pair_map(s).remove(k).contains_key(q)
            && (pair_map(t).contains_key(q) ==> pair_map(t)[q] == pair_map(s).remove(k)[q]) by {
            lemma_pair_index(front, q);
            lemma_pair_index(rest, q);
            lemma_pair_index(s, q);
            lemma_pair_index(t, q);
            assert forall|j: int| 0 <= j < pair_index(front, q) implies (#[trigger] s[j]).0 != q by {
                assert(front[j].0 != q);
            }
            assert(pair_map(rest).contains_key(q) == pair_map(front).remove(k).contains_key(q));
            if pair_index(front, q) < front.len() {
                lemma_pair_index_unique(s, q, pair_index(front, q));
                if q != k {
                    assert(pair_map(front).remove(k)[q] == pair_map(front)[q]);
                    lemma_pair_index_unique(t, q, pair_index(rest, q));
                }
            } else {
                if s.last().0 == q {
                    lemma_pair_index_unique(s, q, s.len() - 1);
                } else {
                    lemma_pair_index_unique(s, q, s.len() as int);
                }
            }
            if q == k {
                lemma_pair_index_unique(t, q, t.len() as int);
            } else if pair_index(rest, q) >= rest.len() {
                if s.last().0 == q {
                    lemma_pair_index_unique(t, q, rest.len() as int);
                } else {
                    lemma_pair_index_unique(t, q, t.len() as int);
                }
            }
        }
        assert(pair_map(t) =~= pair_map(s).remove(k));
    }
}

/// A map from keys to values, held as pairs.
pub struct Table<K: Datum, V: DeepView> {
    pub entries: Vec<(K, V)>,
}

impl<K: Datum, V: DeepView> View for Table<K, V> {
    type V = Map<K::V, V::V>;

    open spec fn view(&self) -> Map<K::V, V::V> {
        pair_map(self.entries.deep_view())
    }
}

impl<K: Datum, V: DeepView> DeepView for Table<K, V> {
    type V = Map<K::V, V::V>;

    open spec fn deep_view(&self) -> Map<K::V, V::V> {
        self@
    }
}

impl<K: Datum, V: DeepView> Table<K, V> {
    /// The pairs in the order in which their keys were first added.
    pub open spec fn pairs(&self) -> Seq<(K::V, V::V)> {
        self.entries.deep_view()
    }

    pub fn new() -> (r: Self)
        ensures
            r@ == Map::<K::V, V::V>::empty(),
            r.pairs() == Seq::<(K::V, V::V)>::empty(),
    {
        let r = Table { entries: Vec::new() };
        proof {
            assert(r.pairs() =~= Seq::<(K::V, V::V)>::empty());
            assert(r@ =~= Map::<K::V, V::V>::empty());
        }
        r
    }

    fn position(&self, k: &K) -> (r: usize)
        ensures
            r == pair_index(self.pairs(), k.deep_view()),
    {
        let mut i: usize = 0;
        while i < self.entries.len()
            invariant
                i <= self.entries.len(),
                forall|j: int| 0 <= j < i ==> (#[trigger] self.pairs()[j]).0 != k.deep_view(),
            decreases self.entries.len() - i,
        {
            if self.entries[i].0.same(k) {
                proof {
                    assert(self.pairs()[i as int].0 == k.deep_view());
                    lemma_pair_index_unique(self.pairs(), k.deep_view(), i as int);
                }
                return i;
            }
            assert(self.pairs()[i as int].0 != k.deep_view());
            i += 1;
        }
        proof {
            lemma_pair_index_unique(self.pairs(), k.deep_view(), i as int);
        }
        i
    }

    /// The value stored under `k`.
    pub fn get(&self, k: &K) -> (r: Option<&V>)
        ensures
            r.deep_view() == self@.get(k.deep_view()),
            r.deep_view() == pair_get(self.pairs(), k.deep_view()),
    {
        let i: usize = self.position(k);
        proof {
            lemma_pair_index(self.pairs(), k.deep_view());
        }
        if i < self.entries.len() {
            Some(&self.entries[i].1)
        } else {
            None
        }
    }

    /// Whether a value is stored under `k`.
    pub fn contains(&self, k: &K) -> (r: bool)
        ensures
            r == self@.contains_key(k.deep_view()),
    {
        proof {
            lemma_pair_index(self.pairs(), k.deep_view());
        }
        self.position(k) < self.entries.len()
    }

    /// Stores `v` under `k`.
    pub fn insert(&mut self, k: K, v: V)
        ensures
            final(self)@ == old(self)@.insert(k.deep_view(), v.deep_view()),
            final(self).pairs() == pair_set(old(self).pairs(), k.deep_view(), v.deep_view()),
    {
        let i: usize = self.position(&k);
        let ghost before = self.pairs();
        let ghost kk = k.deep_view();
        let ghost vv = v.deep_view();
        proof {
            lemma_pair_index(before, kk);
            lemma_pair_set_map(before, kk, vv);
        }
        if i < self.entries.len() {
            self.entries.set(i, (k, v));
        } else {
            self.entries.push((k, v));
        }
        proof {
            assert(self.pairs() =~= pair_set(before, kk, vv));
        }
    }

    /// Removes the value stored under `k`.
    pub fn remove(&mut self, k: &K)
        ensures
            final(self)@ == old(self)@.remove(k.deep_view()),
            final(self).pairs() == pair_drop(old(self).pairs(), k.deep_view()),
    {
        let ghost before = self.pairs();
        let ghost kk = k.deep_view();
        let mut i: usize = self.entries.len();
        proof {
            lemma_pair_drop(before, kk);
            assert(before.take(i as int) =~= before);
            assert(pair_drop(before, kk) + before.skip(i as int) =~= pair_drop(before, kk));
        }
        let mut kept: Vec<(K, V)> = Vec::new();
        let mut old_entries: Vec<(K, V)> = Vec::new();
        std::mem::swap(&mut old_entries, &mut self.entries);
        let ghost all = old_entries@;
        let mut reversed: Vec<(K, V)> = Vec::new();
        while old_entries.len() > 0
            invariant
                old_entries@.len() <= all.len(),
                reversed@.len() + old_entries@.len() == all.len(),
                forall|j: int| 0 <= j < old_entries@.len() ==> old_entries@[j] == all[j],
                forall|j: int| 0 <= j < reversed@.len() ==> reversed@[j] == all[all.len() - 1 - j],
            decreases old_entries@.len(),
        {
            let e = old_entries.pop();
            if let Some(pair) = e {
                reversed.push(pair);
            }
        }
        let ghost n = all.len();
        proof {
            assert(kept.deep_view() =~= Seq::<(K::V, V::V)>::empty());
            assert(before.take(0) =~= Seq::<(K::V, V::V)>::empty());
        }
        while reversed.len() > 0
            invariant
                n == all.len(),
                n == before.len(),
                reversed@.len() <= n,
                forall|j: int| 0 <= j < n ==> (#[trigger] before[j]) == all[j].deep_view(),
                forall|j: int| 0 <= j < reversed@.len() ==> reversed@[j] == all[n - 1 - j],
                kk == k.deep_view(),
                kept.deep_view() == pair_drop(before.take(n - reversed@.len()), kk),
            decreases reversed@.len(),
        {
            let ghost m = n - reversed@.len();
            let e = reversed.pop();
            if let Some(pair) = e {
                proof {
                    assert(pair.deep_view() == before[m]);
                    assert(before.take(m + 1).drop_last() =~= before.take(m));
                    assert(before.take(m + 1).last() == before[m]);
                }
                if !pair.0.same(k) {
                    let ghost prior = kept;
                    kept.push(pair);
                    proof {
                        assert(kept.deep_view() =~= prior.deep_view().push(before[m]));
                    }
                }
            }
        }
        proof {
            assert(before.take(n as int) =~= before);
        }
        self.entries = kept;
    }
}

impl<K: Datum, V: Dup> Table<K, V> {
    /// A second table with the same contents, in the same order.
    pub fn copy(&self) -> (r: Self)
        ensures
            r@ == self@,
            r.pairs() == self.pairs(),
    {
        Table { entries: self.entries.dup() }
    }

    /// Adds the pairs of `other` whose keys are not present yet.
    pub fn absorb(&mut self, other: &Self)
        ensures
            final(self)@ == other@.union_prefer_right(old(self)@),
    {
        let ghost before = self@;
        let mut i: usize = 0;
        proof {
            assert(pair_map(other.pairs().take(0)) =~= Map::<K::V, V::V>::empty());
            assert(pair_map(other.pairs().take(0)).union_prefer_right(before) =~= before);
        }
        while i < other.entries.len()
            invariant
                i <= other.entries.len(),
                self@ == pair_map(other.pairs().take(i as int)).union_prefer_right(before),
            decreases other.entries.len() - i,
        {
            let ghost cur = self@;
            let ghost taken = other.pairs().take(i as int);
            let ghost next = other.pairs().take(i + 1);
            let ghost kk = other.pairs()[i as int].0;
            let ghost vv = other.pairs()[i as int].1;
            if !self.contains(&other.entries[i].0) {
                self.insert(other.entries[i].0.dup(), other.entries[i].1.dup());
            }
            proof {
                assert(next =~= taken.push((kk, vv)));
                assert forall|q: K::V| #[trigger]
                    pair_map(next).contains_key(q) == (pair_map(taken).contains_key(q) || q == kk) && (
                    pair_map(taken).contains_key(q) ==> pair_map(next)[q] == pair_map(taken)[q]) && (
                    !pair_map(taken).contains_key(q) && q == kk ==> pair_map(next)[q] == vv) by {
                    lemma_pair_index(taken, q);
                    lemma_pair_index(next, q);
                    if pair_index(taken, q) < taken.len() {
                        lemma_pair_index_unique(next, q, pair_index(taken, q));
                    } else if q == kk {
                        lemma_pair_index_unique(next, q, taken.len() as int);
                    } else {
                        lemma_pair_index_unique(next, q, next.len() as int);
                    }
                }
                assert(self@ =~= pair_map(next).union_prefer_right(before));
            }
            i += 1;
        }
        proof {
            assert(other.pairs().take(i as int) =~= other.pairs());
        }
    }
}

impl<K: Datum, V: Dup> Dup for Table<K, V> {
    fn dup(&self) -> (r: Self) {
        self.copy()
    }
}

impl<K: Datum, V: Datum> Table<K, V> {
    /// Whether every value of this table is stored under its key in `other`.
    fn within(&self, other: &Self) -> (r: bool)
        ensures
            r == (forall|k: K::V| #[trigger] self@.contains_key(k) ==> other@.contains_key(k) && other@[k] == self@[k]),
    {
        let mut i: usize = 0;
        while i < self.entries.len()
            invariant
                i <= self.entries.len(),
                forall|j: int| #![trigger self.pairs()[j]] 0 <= j < i ==> self@.contains_key(self.pairs()[j].0)
                    && other@.contains_key(self.pairs()[j].0) && other@[self.pairs()[j].0] == self@[self.pairs()[j].0],
            decreases self.entries.len() - i,
        {
            let ghost k = self.pairs()[i as int].0;
            proof {
                lemma_pair_index(self.pairs(), k);
                assert(pair_index(self.pairs(), k) <= i);
                assert(self@.contains_key(k));
            }
            let mine = self.get(&self.entries[i].0);
            let theirs = other.get(&self.entries[i].0);
            match (mine, theirs) {
                (Some(a), Some(b)) => {
                    if !a.same(b) {
                        return false;
                    }
                },
                _ => {
                    return false;
                },
            }
            i += 1;
        }
        proof {
            assert forall|k: K::V| #[trigger] self@.contains_key(k) implies other@.contains_key(k) && other@[k] == self@[k] by {
                lemma_pair_index(self.pairs(), k);
                assert(self.pairs()[pair_index(self.pairs(), k)].0 == k);
            }
        }
        true
    }
}

impl<K: Datum, V: Datum> Datum for Table<K, V> {
    fn same(&self, other: &Self) -> (r: bool) {
        let r: bool = self.within(other) && other.within(self);
        proof {
            if r {
                assert(self@ =~= other@);
            }
        }
        r
    }
}

/// The number of pairs whose key does not occur in `seen`.
pub open spec fn unseen<K, V>(s: Seq<(K, V)>, seen: Seq<K>) -> nat
    decreases s.len(),
{
    if s.len() == 0 {
        0
    } else {
        unseen(s.drop_last(), seen) + (if seen.contains(s.last().0) { 0nat } else { 1nat })
    }
}

/// Marking one more key as seen leaves at most as many pairs, and fewer if
/// the key is among them.
pub proof fn lemma_unseen<K, V>(s: Seq<(K, V)>, seen: Seq<K>, k: K)
    ensures
        unseen(s, seen.push(k)) <= unseen(s, seen),
        pair_index(s, k) < s.len() && !seen.contains(k) ==> unseen(s, seen.push(k)) < unseen(s, seen),
    decreases s.len(),
{
    lemma_pair_index(s, k);
    if s.len() > 0 {
        let front = s.drop_last();
        let more = seen.push(k);
        lemma_unseen(front, seen, k);
        lemma_pair_index(front, k);
        if seen.contains(s.last().0) {
            let j = choose|j: int| 0 <= j < seen.len() && seen[j] == s.last().0;
            assert(more[j] == s.last().0);
        }
        if pair_index(s, k) < s.len() && !seen.contains(k) {
            if s.last().0 == k {
                assert(more[seen.len() as int] == k);
            } else {
                let i = pair_index(s, k);
                assert(i < s.len() - 1);
                assert(front[i].0 == k);
                assert forall|j: int| 0 <= j < i implies (#[trigger] front[j]).0 != k by {
                    assert(s[j].0 != k);
                }
                lemma_pair_index_unique(front, k, i);
            }
        }
    }
}

} // verus!
