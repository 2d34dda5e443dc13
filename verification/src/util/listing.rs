//! Lists of handles in ascending order.

use vstd::prelude::*;

verus! {

/// True when every item is greater than those before it.
pub open spec fn ascending(s: Seq<u32>) -> bool {
    forall|a: int, b: int| 0 <= a < b < s.len() ==> #[trigger] s[a] < #[trigger] s[b]
}

/// The items that are at least `least`, in order.
pub open spec fn at_least(s: Seq<u32>, least: u32) -> Seq<u32>
    decreases s.len(),
{
    if s.len() == 0 {
        Seq::empty()
    } else if s.last() >= least {
        at_least(s.drop_last(), least).push(s.last())
    } else {
        at_least(s.drop_last(), least)
    }
}

/// What is at least `least` is exactly what is kept.
pub proof fn lemma_at_least(s: Seq<u32>, least: u32)
    ensures
        forall|x: u32| #[trigger] at_least(s, least).contains(x) <==> s.contains(x) && x >= least,
        ascending(s) ==> ascending(at_least(s, least)),
        at_least(s, least).len() <= s.len(),
    decreases s.len(),
{
    if s.len() > 0 {
        let front = s.drop_last();
        lemma_at_least(front, least);
        let kept = at_least(front, least);
        assert forall|x: u32| #[trigger] at_least(s, least).contains(x) <==> s.contains(x) && x
            >= least by {
            if s.contains(x) {
                let i = choose|i: int| 0 <= i < s.len() && s[i] == x;
                if i < front.len() {
                    assert(front[i] == x);
                    assert(front.contains(x));
                }
            }
            if front.contains(x) {
                let i = choose|i: int| 0 <= i < front.len() && front[i] == x;
                assert(s[i] == x);
            }
            assert(s[s.len() - 1] == s.last());
            if s.last() >= least {
                let all = kept.push(s.last());
                if all.contains(x) {
                    let i = choose|i: int| 0 <= i < all.len() && all[i] == x;
                    if i < kept.len() {
                        assert(kept[i] == x);
                        assert(kept.contains(x));
                    }
                }
                if kept.contains(x) {
                    let i = choose|i: int| 0 <= i < kept.len() && kept[i] == x;
                    assert(all[i] == x);
                }
                assert(all[kept.len() as int] == s.last());
            }
        }
        if ascending(s) {
            assert(ascending(front)) by {
                assert forall|a: int, b: int| 0 <= a < b < front.len() implies #[trigger] front[a]
                    < #[trigger] front[b] by {
                    assert(s[a] < s[b]);
                }
            }
            if s.last() >= least {
                assert forall|a: int, b: int|
                    0 <= a < b < at_least(s, least).len() implies #[trigger] at_least(s, least)[a]
                    < #[trigger] at_least(s, least)[b] by {
                    if b == kept.len() {
                        assert(kept.contains(kept[a]));
                        assert(front.contains(kept[a]));
                        let i = choose|i: int| 0 <= i < front.len() && front[i] == kept[a];
                        assert(s[i] < s[s.len() - 1]);
                    }
                }
            }
        }
    }
}

/// The items that are at least `least`, in order.
pub fn keep_from(list: &[u32], least: u32) -> (r: Vec<u32>)
    ensures
        r@ == at_least(list@, least),
        r@.len() <= list@.len(),
{
    let mut out: Vec<u32> = Vec::new();
    let mut i: usize = 0;
    assert(list@.take(0) =~= Seq::<u32>::empty());
    assert(out@ =~= at_least(list@.take(0), least));
    while i < list.len()
        invariant
            i <= list@.len(),
            out@ == at_least(list@.take(i as int), least),
            out@.len() <= i,
        decreases list@.len() - i,
    {
        proof {
            let s = list@.take(i + 1);
            assert(s.drop_last() =~= list@.take(i as int));
            assert(s.last() == list@[i as int]);
        }
        if list[i] >= least {
            out.push(list[i]);
        }
        i = i + 1;
    }
    assert(list@.take(i as int) =~= list@);
    out
}

/// The first items, at most `limit` of them.
pub open spec fn first_of<T>(s: Seq<T>, limit: nat) -> Seq<T> {
    if s.len() <= limit {
        s
    } else {
        s.take(limit as int)
    }
}

/// Keep at most `limit` items, and say whether any were left behind.
pub fn take<T>(all: Vec<T>, limit: usize) -> (r: (Vec<T>, bool))
    ensures
        r.0@ == first_of(all@, limit as nat),
        r.1 == (all@.len() > limit),
        r.0@.len() <= limit,
{
    let mut all: Vec<T> = all;
    let more: bool = all.len() > limit;
    if more {
        all.truncate(limit);
    }
    (all, more)
}

/// Two ascending lists with nothing in common, as one.
pub fn merge(a: &[u32], b: &[u32]) -> (r: Vec<u32>)
    requires
        ascending(a@),
        ascending(b@),
        forall|x: u32| !(a@.contains(x) && b@.contains(x)),
    ensures
        ascending(r@),
        forall|x: u32| #[trigger] r@.contains(x) <==> a@.contains(x) || b@.contains(x),
{
    let mut out: Vec<u32> = Vec::new();
    let mut i: usize = 0;
    let mut j: usize = 0;
    while i < a.len() || j < b.len()
        invariant
            i <= a@.len(),
            j <= b@.len(),
            ascending(a@),
            ascending(b@),
            forall|x: u32| !(a@.contains(x) && b@.contains(x)),
            ascending(out@),
            forall|k: int, m: int|
                0 <= k < out@.len() && i <= m < a@.len() ==> #[trigger] out@[k] < #[trigger] a@[m],
            forall|k: int, m: int|
                0 <= k < out@.len() && j <= m < b@.len() ==> #[trigger] out@[k] < #[trigger] b@[m],
            forall|k: int|
                0 <= k < out@.len() ==> a@.contains(#[trigger] out@[k]) || b@.contains(out@[k]),
            forall|k: int| 0 <= k < i ==> out@.contains(#[trigger] a@[k]),
            forall|k: int| 0 <= k < j ==> out@.contains(#[trigger] b@[k]),
        decreases a@.len() - i + b@.len() - j,
    {
        let first: bool = j >= b.len() || (i < a.len() && a[i] < b[j]);
        let ghost before = out@;
        proof {
            if i < a@.len() && j < b@.len() {
                assert(a@.contains(a@[i as int]) && b@.contains(b@[j as int]));
                assert(a@[i as int] != b@[j as int]);
            }
        }
        if first {
            let x: u32 = a[i];
            out.push(x);
            i = i + 1;
            proof {
                assert(a@.contains(a@[i - 1]));
                assert forall|y: u32| before.contains(y) implies out@.contains(y) by {
                    let k = choose|k: int| 0 <= k < before.len() && before[k] == y;
                    assert(out@[k] == y);
                }
                assert(out@[before.len() as int] == a@[i - 1]);
            }
        } else {
            let x: u32 = b[j];
            out.push(x);
            j = j + 1;
            proof {
                assert(b@.contains(b@[j - 1]));
                assert forall|y: u32| before.contains(y) implies out@.contains(y) by {
                    let k = choose|k: int| 0 <= k < before.len() && before[k] == y;
                    assert(out@[k] == y);
                }
                assert(out@[before.len() as int] == b@[j - 1]);
            }
        }
    }
    proof {
        assert forall|x: u32| #[trigger] out@.contains(x) <==> a@.contains(x) || b@.contains(x) by {
            if out@.contains(x) {
                let k = choose|k: int| 0 <= k < out@.len() && out@[k] == x;
                assert(a@.contains(out@[k]) || b@.contains(out@[k]));
            }
            if a@.contains(x) {
                let k = choose|k: int| 0 <= k < a@.len() && a@[k] == x;
                assert(out@.contains(a@[k]));
            }
            if b@.contains(x) {
                let k = choose|k: int| 0 <= k < b@.len() && b@[k] == x;
                assert(out@.contains(b@[k]));
            }
        }
    }
    out
}

/// Put `x` where it belongs, unless it is there already.
pub fn insert(list: &mut Vec<u32>, x: u32)
    requires
        ascending(old(list)@),
    ensures
        ascending(final(list)@),
        forall|y: u32| #[trigger] final(list)@.contains(y) <==> old(list)@.contains(y) || y == x,
{
    let ghost before = list@;
    let mut i: usize = 0;
    while i < list.len() && list[i] < x
        invariant
            i <= list@.len(),
            list@ == before,
            ascending(before),
            forall|k: int| 0 <= k < i ==> #[trigger] before[k] < x,
        decreases list@.len() - i,
    {
        i = i + 1;
    }
    if i < list.len() && list[i] == x {
        assert(before[i as int] == x);
        return ;
    }
    list.insert(i, x);
    proof {
        let now = list@;
        assert(now =~= before.insert(i as int, x));
        assert forall|a: int, b: int| 0 <= a < b < now.len() implies #[trigger] now[a]
            < #[trigger] now[b] by {
            if i < before.len() {
                assert(before[i as int] > x);
            }
            if a > i {
                assert(before[a - 1] < before[b - 1]);
            } else if a == i {
                assert(i == b - 1 || before[i as int] < before[b - 1]);
            } else if b == i {
                assert(before[a] < x);
            } else if b > i {
                assert(before[a] < before[b - 1]);
            } else {
                assert(before[a] < before[b]);
            }
        }
        assert forall|y: u32| #[trigger] now.contains(y) <==> before.contains(y) || y == x by {
            if now.contains(y) {
                let k = choose|k: int| 0 <= k < now.len() && now[k] == y;
                if k < i {
                    assert(before[k] == y);
                } else if k > i {
                    assert(before[k - 1] == y);
                }
            }
            if before.contains(y) {
                let k = choose|k: int| 0 <= k < before.len() && before[k] == y;
                if k < i {
                    assert(now[k] == y);
                } else {
                    assert(now[k + 1] == y);
                }
            }
            assert(now[i as int] == x);
        }
    }
}

/// There is one ascending list of the same items.
pub proof fn lemma_one_list(a: Seq<u32>, b: Seq<u32>)
    requires
        ascending(a),
        ascending(b),
        forall|x: u32| #[trigger] a.contains(x) <==> b.contains(x),
    ensures
        a == b,
    decreases a.len(),
{
    if a.len() == 0 {
        if b.len() > 0 {
            assert(b.contains(b[0]));
            assert(!a.contains(b[0]));
        }
        assert(a =~= b);
    } else {
        assert(a.contains(a.last()));
        assert(b.contains(a.last()));
        assert(b.contains(b.last()));
        assert(a.contains(b.last()));
        let i = choose|i: int| 0 <= i < b.len() && b[i] == a.last();
        let j = choose|j: int| 0 <= j < a.len() && a[j] == b.last();
        assert(a.last() == b.last());
        let front = a.drop_last();
        let other = b.drop_last();
        assert forall|x: u32| #[trigger] front.contains(x) <==> other.contains(x) by {
            if front.contains(x) {
                let k = choose|k: int| 0 <= k < front.len() && front[k] == x;
                assert(a[k] == x);
                assert(a.contains(x) && x < a.last());
                let m = choose|m: int| 0 <= m < b.len() && b[m] == x;
                assert(other[m] == x);
            }
            if other.contains(x) {
                let k = choose|k: int| 0 <= k < other.len() && other[k] == x;
                assert(b[k] == x);
                assert(b.contains(x) && x < b.last());
                assert(a.contains(x));
                let m = choose|m: int| 0 <= m < a.len() && a[m] == x;
                assert(front[m] == x);
            }
        }
        lemma_one_list(front, other);
        assert(a =~= front.push(a.last()));
        assert(b =~= other.push(b.last()));
    }
}

} // verus!
