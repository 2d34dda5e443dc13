//! Values kept under handles, in ascending order of the handle.

use vstd::prelude::*;

verus! {

/// A map from handles to values.
#[derive(Debug)]
pub struct HandleMap<T> {
    entries: Vec<(u32, T)>,
}

/// True when the handles ascend, so none occurs twice.
pub open spec fn ascending<T>(s: Seq<(u32, T)>) -> bool {
    forall|i: int, j: int| 0 <= i < j < s.len() ==> (#[trigger] s[i]).0 < (#[trigger] s[j]).0
}

/// True when `s` holds the handle `k`.
pub open spec fn holds<T>(s: Seq<(u32, T)>, k: u32) -> bool {
    exists|i: int| 0 <= i < s.len() && (#[trigger] s[i]).0 == k
}

/// The value `s` holds under `k`.
pub open spec fn held<T>(s: Seq<(u32, T)>, k: u32) -> T {
    s[choose|i: int| 0 <= i < s.len() && (#[trigger] s[i]).0 == k].1
}

impl<T> View for HandleMap<T> {
    type V = Map<u32, T>;

    closed spec fn view(&self) -> Map<u32, T> {
        map_of(self.entries@)
    }
}

/// The map that entries stand for.
pub open spec fn map_of<T>(s: Seq<(u32, T)>) -> Map<u32, T> {
    Map::new(|k: u32| holds(s, k), |k: u32| held(s, k))
}

/// True when `after` is `before` with `e` put in somewhere.
pub open spec fn put_in<T>(before: Seq<(u32, T)>, e: (u32, T), after: Seq<(u32, T)>) -> bool {
    exists|i: int| 0 <= i <= before.len() && after == #[trigger] before.insert(i, e)
}

/// True when `after` is `before` with `e` in place of what its handle had.
pub open spec fn put_over<T>(before: Seq<(u32, T)>, e: (u32, T), after: Seq<(u32, T)>) -> bool {
    exists|i: int|
        0 <= i < before.len() && before[i].0 == e.0 && after == #[trigger] before.update(i, e)
}

proof fn lemma_held<T>(s: Seq<(u32, T)>, i: int)
    requires
        ascending(s),
        0 <= i < s.len(),
    ensures
        map_of(s).contains_key(s[i].0),
        map_of(s)[s[i].0] == s[i].1,
{
    let k = s[i].0;
    assert(holds(s, k));
    let c = choose|j: int| 0 <= j < s.len() && (#[trigger] s[j]).0 == k;
    assert(0 <= c < s.len() && s[c].0 == k);
    assert(c == i);
}

proof fn lemma_update<T>(s: Seq<(u32, T)>, i: int, y: (u32, T))
    requires
        ascending(s),
        0 <= i < s.len(),
        y.0 == s[i].0,
    ensures
        ascending(s.update(i, y)),
        map_of(s.update(i, y)) == map_of(s).insert(y.0, y.1),
{
    let t = s.update(i, y);
    let goal = map_of(s).insert(y.0, y.1);
    assert forall|a: int, b: int| 0 <= a < b < t.len() implies (#[trigger] t[a]).0 < (#[trigger] t[
    b]).0 by {
        assert(s[a].0 < s[b].0);
    }
    assert forall|x: u32| map_of(t).contains_key(x) <==> goal.contains_key(x) by {
        if holds(t, x) {
            let j = choose|j: int| 0 <= j < t.len() && (#[trigger] t[j]).0 == x;
            assert(s[j].0 == x);
            assert(holds(s, x));
        }
        if holds(s, x) {
            let j = choose|j: int| 0 <= j < s.len() && (#[trigger] s[j]).0 == x;
            assert(t[j].0 == x);
            assert(holds(t, x));
        }
        if x == y.0 {
            assert(t[i].0 == x);
            assert(holds(t, x));
        }
    }
    assert forall|x: u32| map_of(t).contains_key(x) implies map_of(t)[x] == goal[x] by {
        let j = choose|j: int| 0 <= j < t.len() && (#[trigger] t[j]).0 == x;
        lemma_held(t, j);
        lemma_held(s, j);
        if j == i {
        } else {
            assert(t[j] == s[j]);
        }
    }
    assert(map_of(t) =~= goal);
}

impl<T> HandleMap<T> {
    /// The handles ascend.
    pub closed spec fn wf(&self) -> bool {
        ascending(self.entries@)
    }

    /// The entries in order.
    pub closed spec fn listed(&self) -> Seq<(u32, T)> {
        self.entries@
    }

    proof fn lemma_at(&self, i: int)
        requires
            self.wf(),
            0 <= i < self.entries@.len(),
        ensures
            self@.contains_key(self.entries@[i].0),
            self@[self.entries@[i].0] == self.entries@[i].1,
    {
        lemma_held(self.entries@, i);
    }

    /// The handles of the map are those of its entries.
    pub proof fn lemma_listed(&self)
        requires
            self.wf(),
        ensures
            ascending(self.listed()),
            forall|k: u32| self@.contains_key(k) <==> holds(self.listed(), k),
            forall|i: int|
                0 <= i < self.listed().len() ==> self@.contains_key((#[trigger] self.listed()[i]).0)
                    && self@[self.listed()[i].0] == self.listed()[i].1,
            self@.dom().finite(),
            self@.dom().len() == self.listed().len(),
    {
        let s = self.entries@;
        assert forall|i: int| 0 <= i < s.len() implies self@.contains_key((#[trigger] s[i]).0)
            && self@[s[i].0] == s[i].1 by {
            self.lemma_at(i);
        }
        let keys = Seq::new(s.len(), |i: int| s[i].0);
        assert(keys.no_duplicates());
        keys.unique_seq_to_set();
        assert(keys.to_set() =~= self@.dom()) by {
            assert forall|k: u32| self@.dom().contains(k) implies keys.to_set().contains(k) by {
                assert(holds(s, k));
                let i = choose|i: int| 0 <= i < s.len() && (#[trigger] s[i]).0 == k;
                assert(keys[i] == k);
            }
            assert forall|k: u32| keys.to_set().contains(k) implies self@.dom().contains(k) by {
                let i = choose|i: int| 0 <= i < keys.len() && keys[i] == k;
                assert(s[i].0 == k);
                assert(holds(s, k));
            }
        }
    }

    /// No handles.
    pub fn new() -> (r: Self)
        ensures
            r.wf(),
            r@ == Map::<u32, T>::empty(),
    {
        let r = HandleMap { entries: Vec::new() };
        assert(r@ =~= Map::<u32, T>::empty());
        r
    }

    /// The place of `k`, or of the first larger handle.
    fn place(&self, k: u32) -> (r: (usize, bool))
        requires
            self.wf(),
        ensures
            r.0 <= self.entries@.len(),
            r.1 == self@.contains_key(k),
            r.1 ==> r.0 < self.entries@.len() && self.entries@[r.0 as int].0 == k,
            forall|i: int| 0 <= i < r.0 ==> (#[trigger] self.entries@[i]).0 < k,
            forall|i: int|
                r.0 <= i < self.entries@.len() ==> (#[trigger] self.entries@[i]).0 >= k,
            !r.1 ==> forall|i: int|
                r.0 <= i < self.entries@.len() ==> (#[trigger] self.entries@[i]).0 > k,
    {
        let mut i: usize = 0;
        while i < self.entries.len() && self.entries[i].0 < k
            invariant
                i <= self.entries@.len(),
                forall|j: int| 0 <= j < i ==> (#[trigger] self.entries@[j]).0 < k,
            decreases self.entries@.len() - i,
        {
            i = i + 1;
        }
        let found: bool = i < self.entries.len() && self.entries[i].0 == k;
        proof {
            if found {
                self.lemma_at(i as int);
            } else if holds(self.entries@, k) {
                let j = choose|j: int|
                    0 <= j < self.entries@.len() && (#[trigger] self.entries@[j]).0 == k;
                assert(i < j);
            }
        }
        (i, found)
    }

    /// The value under `k`.
    pub fn get(&self, k: u32) -> (r: Option<&T>)
        requires
            self.wf(),
        ensures
            match r {
                Some(v) => self@.contains_key(k) && *v == self@[k],
                None => !self@.contains_key(k),
            },
    {
        let p: (usize, bool) = self.place(k);
        if p.1 {
            proof {
                self.lemma_at(p.0 as int);
            }
            Some(&self.entries[p.0].1)
        } else {
            None
        }
    }

    /// True when there is a value under `k`.
    pub fn contains(&self, k: u32) -> (r: bool)
        requires
            self.wf(),
        ensures
            r == self@.contains_key(k),
    {
        let p: (usize, bool) = self.place(k);
        p.1
    }

    /// Put `v` under `k`, in place of what was there.
    pub fn insert(&mut self, k: u32, v: T)
        requires
            old(self).wf(),
        ensures
            final(self).wf(),
            final(self)@ == old(self)@.insert(k, v),
            !old(self)@.contains_key(k) ==> put_in(old(self).listed(), (k, v), final(self).listed()),
            old(self)@.contains_key(k) ==> put_over(old(self).listed(), (k, v), final(self).listed()),
    {
        let p: (usize, bool) = self.place(k);
        let ghost before = self.entries@;
        if p.1 {
            self.entries.set(p.0, (k, v));
            proof {
                assert(self.entries@ =~= before.update(p.0 as int, (k, v)));
            }
        } else {
            self.entries.insert(p.0, (k, v));
        }
        proof {
            let s = self.entries@;
            let at = p.0 as int;
            assert forall|i: int, j: int| 0 <= i < j < s.len() implies (#[trigger] s[i]).0
                < (#[trigger] s[j]).0 by {
                if !p.1 {
                    let oi = if i < at { i } else { i - 1 };
                    let oj = if j < at { j } else { j - 1 };
                    assert(i != at ==> s[i] == before[oi]);
                    assert(j != at ==> s[j] == before[oj]);
                } else {
                    assert(i != at ==> s[i] == before[i]);
                    assert(j != at ==> s[j] == before[j]);
                }
            }
            let goal = old(self)@.insert(k, v);
            assert forall|x: u32| self@.contains_key(x) <==> goal.contains_key(x) by {
                if self@.contains_key(x) {
                    let i = choose|i: int| 0 <= i < s.len() && (#[trigger] s[i]).0 == x;
                    if i != at {
                        let oi = if p.1 || i < at { i } else { i - 1 };
                        assert(s[i] == before[oi]);
                        assert(holds(before, x));
                    }
                }
                if goal.contains_key(x) && x != k {
                    let i = choose|i: int| 0 <= i < before.len() && (#[trigger] before[i]).0 == x;
                    let ni = if p.1 || i < at { i } else { i + 1 };
                    assert(s[ni] == before[i]);
                    assert(holds(s, x));
                }
                if x == k {
                    assert(s[at].0 == k);
                }
            }
            assert forall|x: u32| self@.contains_key(x) implies self@[x] == goal[x] by {
                let i = choose|i: int| 0 <= i < s.len() && (#[trigger] s[i]).0 == x;
                self.lemma_at(i);
                if i != at {
                    let oi = if p.1 || i < at { i } else { i - 1 };
                    assert(s[i] == before[oi]);
                    old(self).lemma_at(oi);
                }
            }
            assert(self@ =~= goal);
        }
    }

    /// Take the value under `k` away.
    pub fn remove(&mut self, k: u32) -> (r: Option<T>)
        requires
            old(self).wf(),
        ensures
            final(self).wf(),
            match r {
                Some(v) => old(self)@.contains_key(k) && v == old(self)@[k] && final(self)@ == old(
                    self,
                )@.remove(k) && put_in(final(self).listed(), (k, v), old(self).listed()),
                None => !old(self)@.contains_key(k) && *final(self) == *old(self),
            },
    {
        let p: (usize, bool) = self.place(k);
        if !p.1 {
            return None;
        }
        let ghost before = self.entries@;
        proof {
            self.lemma_at(p.0 as int);
        }
        let taken: (u32, T) = self.entries.remove(p.0);
        proof {
            let s = self.entries@;
            let at = p.0 as int;
            assert(s =~= before.remove(at));
            assert(before =~= s.insert(at, taken));
            let goal = old(self)@.remove(k);
            assert forall|x: u32| self@.contains_key(x) <==> goal.contains_key(x) by {
                if self@.contains_key(x) {
                    let i = choose|i: int| 0 <= i < s.len() && (#[trigger] s[i]).0 == x;
                    let oi = if i < at { i } else { i + 1 };
                    assert(s[i] == before[oi]);
                    assert(holds(before, x));
                }
                if goal.contains_key(x) {
                    let i = choose|i: int| 0 <= i < before.len() && (#[trigger] before[i]).0 == x;
                    assert(i != at);
                    let ni = if i < at { i } else { i - 1 };
                    assert(s[ni] == before[i]);
                    assert(holds(s, x));
                }
            }
            assert forall|x: u32| self@.contains_key(x) implies self@[x] == goal[x] by {
                let i = choose|i: int| 0 <= i < s.len() && (#[trigger] s[i]).0 == x;
                self.lemma_at(i);
                let oi = if i < at { i } else { i + 1 };
                assert(s[i] == before[oi]);
                old(self).lemma_at(oi);
            }
            assert(self@ =~= goal);
        }
        Some(taken.1)
    }

    /// The value under `k`, to change.
    pub fn get_mut(&mut self, k: u32) -> (r: Option<&mut T>)
        requires
            old(self).wf(),
        ensures
            match r {
                Some(v) => old(self)@.contains_key(k) && *v == old(self)@[k] && final(self).wf()
                    && final(self)@ == old(self)@.insert(k, *final(v)) && put_over(
                    old(self).listed(),
                    (k, *final(v)),
                    final(self).listed(),
                ),
                None => !old(self)@.contains_key(k) && *final(self) == *old(self),
            },
    {
        let p: (usize, bool) = self.place(k);
        if !p.1 {
            return None;
        }
        let ghost s = self.entries@;
        proof {
            self.lemma_at(p.0 as int);
            assert forall|y: (u32, T)|
                y.0 == k implies ascending(#[trigger] s.update(p.0 as int, y)) && map_of(
                s.update(p.0 as int, y),
            ) == map_of(s).insert(k, y.1) by {
                lemma_update(s, p.0 as int, y);
            }
        }
        let e: &mut (u32, T) = &mut self.entries[p.0];
        Some(&mut e.1)
    }

    /// How many handles there are.
    pub fn len(&self) -> (r: usize)
        requires
            self.wf(),
        ensures
            r == self@.dom().len(),
            r == self.listed().len(),
    {
        proof {
            self.lemma_listed();
        }
        self.entries.len()
    }

    /// The handles, ascending.
    pub fn keys(&self) -> (r: Vec<u32>)
        requires
            self.wf(),
        ensures
            r@ == self.listed().map_values(|e: (u32, T)| e.0),
            forall|k: u32| r@.contains(k) <==> #[trigger] self@.contains_key(k),
            forall|a: int, b: int| 0 <= a < b < r@.len() ==> #[trigger] r@[a] < #[trigger] r@[b],
    {
        let mut out: Vec<u32> = Vec::with_capacity(self.entries.len());
        let mut i: usize = 0;
        while i < self.entries.len()
            invariant
                i <= self.entries@.len(),
                out@ =~= self.entries@.subrange(0, i as int).map_values(|e: (u32, T)| e.0),
            decreases self.entries@.len() - i,
        {
            out.push(self.entries[i].0);
            i = i + 1;
        }
        assert(self.entries@.subrange(0, i as int) =~= self.entries@);
        proof {
            let s = self.entries@;
            assert forall|k: u32| out@.contains(k) <==> #[trigger] self@.contains_key(k) by {
                if out@.contains(k) {
                    let j = choose|j: int| 0 <= j < out@.len() && out@[j] == k;
                    self.lemma_at(j);
                }
                if self@.contains_key(k) {
                    let j = choose|j: int| 0 <= j < s.len() && (#[trigger] s[j]).0 == k;
                    assert(out@[j] == k);
                }
            }
            assert forall|a: int, b: int| 0 <= a < b < out@.len() implies #[trigger] out@[a]
                < #[trigger] out@[b] by {
                assert(s[a].0 < s[b].0);
            }
        }
        out
    }

    /// The entry at place `i`.
    pub fn entry(&self, i: usize) -> (r: (u32, &T))
        requires
            self.wf(),
            i < self.listed().len(),
        ensures
            r.0 == self.listed()[i as int].0,
            *r.1 == self.listed()[i as int].1,
    {
        let e: &(u32, T) = &self.entries[i];
        (e.0, &e.1)
    }
}

/// A value that can be copied into one that holds the same.
pub trait Copied: Sized {
    /// True when two values hold the same.
    spec fn same(self, other: Self) -> bool;

    /// True for a value fit to be used.
    spec fn fit(self) -> bool;

    /// A copy.
    fn copied(&self) -> (r: Self)
        ensures
            r.same(*self),
            self.fit() ==> r.fit(),
    ;
}

/// True when two maps have the same handles and hold the same under each.
pub open spec fn same_map<T: Copied>(a: HandleMap<T>, b: HandleMap<T>) -> bool {
    &&& a@.dom() == b@.dom()
    &&& forall|k: u32| #[trigger] a@.contains_key(k) ==> a@[k].same(b@[k])
}

/// True when the entries of two maps hold the same, one for one.
pub open spec fn same_entries<T: Copied>(a: Seq<(u32, T)>, b: Seq<(u32, T)>) -> bool {
    &&& a.len() == b.len()
    &&& forall|i: int| 0 <= i < a.len() ==> (#[trigger] a[i]).0 == b[i].0 && a[i].1.same(b[i].1)
}

proof fn lemma_same_entries<T: Copied>(a: Seq<(u32, T)>, b: Seq<(u32, T)>)
    requires
        ascending(b),
        same_entries(a, b),
    ensures
        ascending(a),
        map_of(a).dom() == map_of(b).dom(),
        forall|k: u32| #[trigger] map_of(a).contains_key(k) ==> map_of(a)[k].same(map_of(b)[k]),
{
    assert forall|i: int, j: int| 0 <= i < j < a.len() implies (#[trigger] a[i]).0 < (
    #[trigger] a[j]).0 by {
        assert(b[i].0 < b[j].0);
    }
    assert forall|k: u32| map_of(a).contains_key(k) <==> map_of(b).contains_key(k) by {
        if holds(a, k) {
            let i = choose|i: int| 0 <= i < a.len() && (#[trigger] a[i]).0 == k;
            assert(b[i].0 == k);
            assert(holds(b, k));
        }
        if holds(b, k) {
            let i = choose|i: int| 0 <= i < b.len() && (#[trigger] b[i]).0 == k;
            assert(a[i].0 == k);
            assert(holds(a, k));
        }
    }
    assert(map_of(a).dom() =~= map_of(b).dom());
    assert forall|k: u32| #[trigger] map_of(a).contains_key(k) implies map_of(a)[k].same(
        map_of(b)[k],
    ) by {
        let i = choose|i: int| 0 <= i < a.len() && (#[trigger] a[i]).0 == k;
        lemma_held(a, i);
        lemma_held(b, i);
    }
}

impl<T: Copied> HandleMap<T> {
    /// A map that holds the same.
    pub fn duplicate(&self) -> (r: HandleMap<T>)
        requires
            self.wf(),
        ensures
            r.wf(),
            same_map(r, *self),
            same_entries(r.listed(), self.listed()),
            forall|k: u32| #[trigger]
                r@.contains_key(k) ==> (self@[k].fit() ==> r@[k].fit()),
    {
        let mut entries: Vec<(u32, T)> = Vec::new();
        let mut i: usize = 0;
        while i < self.entries.len()
            invariant
                i <= self.entries@.len(),
                entries@.len() == i,
                forall|j: int|
                    0 <= j < i ==> (#[trigger] entries@[j]).0 == self.entries@[j].0
                        && entries@[j].1.same(self.entries@[j].1) && (self.entries@[j].1.fit()
                        ==> entries@[j].1.fit()),
            decreases self.entries@.len() - i,
        {
            let e: &(u32, T) = &self.entries[i];
            let t: T = e.1.copied();
            entries.push((e.0, t));
            i = i + 1;
        }
        let r = HandleMap { entries };
        proof {
            lemma_same_entries(r.entries@, self.entries@);
            assert forall|k: u32| #[trigger] r@.contains_key(k) && self@[k].fit() implies r@[
                k
            ].fit() by {
                let a = r.entries@;
                let i = choose|i: int| 0 <= i < a.len() && (#[trigger] a[i]).0 == k;
                lemma_held(a, i);
                lemma_held(self.entries@, i);
            }
        }
        r
    }
}

} // verus!
