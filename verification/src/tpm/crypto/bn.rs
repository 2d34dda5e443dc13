//! Numbers of any size.

use vstd::arithmetic::div_mod::{
    lemma_fundamental_div_mod, lemma_fundamental_div_mod_converse, lemma_mod_multiples_vanish,
    lemma_small_mod,
};
use vstd::prelude::*;

verus! {

/// What one limb counts up to.
pub const RADIX: u64 = 0x1_0000_0000;

/// The weight of limb `n`.
pub open spec fn weight(n: nat) -> nat
    decreases n,
{
    if n == 0 {
        1
    } else {
        0x1_0000_0000 * weight((n - 1) as nat)
    }
}

/// The number that limbs stand for, the lowest first.
pub open spec fn limbs_value(s: Seq<u32>) -> nat
    decreases s.len(),
{
    if s.len() == 0 {
        0
    } else {
        limbs_value(s.drop_last()) + s.last() as nat * weight((s.len() - 1) as nat)
    }
}

/// The number that octets stand for, the highest first.
pub open spec fn number_of(s: Seq<u8>) -> nat
    decreases s.len(),
{
    if s.len() == 0 {
        0
    } else {
        number_of(s.drop_last()) * 256 + s.last() as nat
    }
}

/// The lowest `len` octets of a number, the highest first.
pub open spec fn octets_of(n: nat, len: nat) -> Seq<u8>
    decreases len,
{
    if len == 0 {
        Seq::empty()
    } else {
        octets_of(n / 256, (len - 1) as nat).push((n % 256) as u8)
    }
}

/// `b` to the power of `e`, modulo `m`.
pub open spec fn power_mod(b: nat, e: nat, m: nat) -> nat
    decreases e,
{
    if m == 0 {
        0
    } else if e == 0 {
        1nat % m
    } else {
        let h = power_mod(b, e / 2, m);
        let s = (h * h) % m;
        if e % 2 == 1 {
            (s * b) % m
        } else {
            s
        }
    }
}

proof fn lemma_weight_positive(n: nat)
    ensures
        weight(n) > 0,
    decreases n,
{
    if n > 0 {
        lemma_weight_positive((n - 1) as nat);
    }
}

/// A limb that changes moves the number by its weight.
proof fn lemma_update(s: Seq<u32>, i: int, x: u32)
    requires
        0 <= i < s.len(),
    ensures
        limbs_value(s.update(i, x)) == limbs_value(s) + (x - s[i]) * weight(i as nat),
    decreases s.len(),
{
    let t = s.update(i, x);
    if i == s.len() - 1 {
        assert(t.drop_last() =~= s.drop_last());
        let w = weight(i as nat) as int;
        assert((x as int) * w == (s[i] as int) * w + (x - s[i]) * w) by (nonlinear_arith);
    } else {
        assert(t.drop_last() =~= s.drop_last().update(i, x));
        lemma_update(s.drop_last(), i, x);
    }
}

/// The number of a prefix and one limb more.
proof fn lemma_take(s: Seq<u32>, i: int)
    requires
        0 <= i < s.len(),
    ensures
        limbs_value(s.take(i + 1)) == limbs_value(s.take(i)) + s[i] as nat * weight(i as nat),
{
    assert(s.take(i + 1).drop_last() =~= s.take(i));
}

/// Limbs below stay below the next weight.
proof fn lemma_bounded(s: Seq<u32>)
    ensures
        limbs_value(s) < weight(s.len()),
    decreases s.len(),
{
    if s.len() > 0 {
        lemma_bounded(s.drop_last());
        let w = weight((s.len() - 1) as nat) as int;
        let x = s.last() as int;
        assert(x * w + w <= 0x1_0000_0000 * w) by (nonlinear_arith)
            requires
                x <= 0xFFFF_FFFF,
                w >= 0,
        ;
    }
}

/// Limbs of zero at the top make no difference.
proof fn lemma_zeros(s: Seq<u32>, n: int)
    requires
        0 <= n <= s.len(),
        forall|i: int| n <= i < s.len() ==> s[i] == 0,
    ensures
        limbs_value(s) == limbs_value(s.take(n)),
    decreases s.len() - n,
{
    if n == s.len() {
        assert(s.take(n) =~= s);
    } else {
        lemma_take(s, n);
        lemma_zeros(s, n + 1);
        assert(s[n] == 0);
        assert(0 * weight(n as nat) == 0) by (nonlinear_arith);
    }
}

/// A limb put in front shifts the others up.
proof fn lemma_front(s: Seq<u32>, x: u32)
    ensures
        limbs_value(seq![x] + s) == x as nat + 0x1_0000_0000 * limbs_value(s),
    decreases s.len(),
{
    let t = seq![x] + s;
    if s.len() == 0 {
        assert(t =~= seq![x]);
        assert(t.drop_last() =~= Seq::<u32>::empty());
        assert(limbs_value(t.drop_last()) == 0);
        assert(weight(0) == 1);
        assert(t.last() == x);
        assert(x as nat * weight(0) == x) by (nonlinear_arith)
            requires
                weight(0) == 1,
        ;
    } else {
        assert(t.drop_last() =~= seq![x] + s.drop_last());
        lemma_front(s.drop_last(), x);
        let w = weight((s.len() - 1) as nat);
        let l = s.last() as nat;
        let v = limbs_value(s.drop_last());
        assert(l * (0x1_0000_0000 * w) + 0x1_0000_0000 * v == 0x1_0000_0000 * (v + l * w))
            by (nonlinear_arith);
    }
}

/// A limb at the top that is not zero makes the number at least its weight.
proof fn lemma_at_least(s: Seq<u32>)
    requires
        s.len() > 0,
        s.last() != 0,
    ensures
        limbs_value(s) >= weight((s.len() - 1) as nat),
{
    let w = weight((s.len() - 1) as nat) as int;
    let x = s.last() as int;
    assert(x * w >= w) by (nonlinear_arith)
        requires
            x >= 1,
            w >= 0,
    ;
}

proof fn lemma_weight_monotonic(a: nat, b: nat)
    requires
        a <= b,
    ensures
        weight(a) <= weight(b),
    decreases b,
{
    if a < b {
        lemma_weight_monotonic(a, (b - 1) as nat);
        lemma_weight_positive((b - 1) as nat);
    }
}

/// A number.
#[derive(Debug)]
pub struct BigNum {
    limbs: Vec<u32>,
}

impl View for BigNum {
    type V = nat;

    closed spec fn view(&self) -> nat {
        limbs_value(self.limbs@)
    }
}

/// Drop the limbs of zero at the top.
fn trim(limbs: &mut Vec<u32>)
    ensures
        limbs_value(final(limbs)@) == limbs_value(old(limbs)@),
        final(limbs)@.len() <= old(limbs)@.len(),
        final(limbs)@.len() == 0 || final(limbs)@.last() != 0,
{
    let ghost start = limbs@;
    let mut n: usize = limbs.len();
    while n > 0 && limbs[n - 1] == 0
        invariant
            n <= limbs@.len(),
            limbs@ == start,
            forall|i: int| n <= i < start.len() ==> start[i] == 0,
        decreases n,
    {
        n = n - 1;
    }
    limbs.truncate(n);
    proof {
        lemma_zeros(start, n as int);
        assert(limbs@ =~= start.take(n as int));
    }
}

/// True when the first number is below the second. Neither has a limb of zero
/// at the top.
fn below(a: &[u32], b: &[u32]) -> (r: bool)
    requires
        a@.len() == 0 || a@.last() != 0,
        b@.len() == 0 || b@.last() != 0,
    ensures
        r == (limbs_value(a@) < limbs_value(b@)),
{
    if a.len() != b.len() {
        proof {
            lemma_bounded(a@);
            lemma_bounded(b@);
            if a@.len() < b@.len() {
                lemma_at_least(b@);
                lemma_weight_monotonic(a@.len(), (b@.len() - 1) as nat);
            } else {
                lemma_at_least(a@);
                lemma_weight_monotonic(b@.len(), (a@.len() - 1) as nat);
            }
        }
        return a.len() < b.len();
    }
    let mut i: usize = a.len();
    assert(a@.take(i as int) =~= a@);
    assert(b@.take(i as int) =~= b@);
    while i > 0
        invariant
            i <= a@.len(),
            a@.len() == b@.len(),
            limbs_value(a@) - limbs_value(b@) == limbs_value(a@.take(i as int)) - limbs_value(
                b@.take(i as int),
            ),
        decreases i,
    {
        proof {
            lemma_take(a@, i - 1);
            lemma_take(b@, i - 1);
        }
        if a[i - 1] != b[i - 1] {
            proof {
                lemma_bounded(a@.take(i - 1));
                lemma_bounded(b@.take(i - 1));
                let w = weight((i - 1) as nat) as int;
                let x = a@[i - 1] as int;
                let y = b@[i - 1] as int;
                assert(x < y ==> x * w + w <= y * w) by (nonlinear_arith)
                    requires
                        w >= 0,
                ;
                assert(y < x ==> y * w + w <= x * w) by (nonlinear_arith)
                    requires
                        w >= 0,
                ;
            }
            return a[i - 1] < b[i - 1];
        }
        i = i - 1;
    }
    assert(a@.take(0) =~= Seq::<u32>::empty());
    assert(b@.take(0) =~= Seq::<u32>::empty());
    false
}

/// Multiply by a small factor and add a small number, in place.
fn scale(limbs: &mut Vec<u32>, factor: u32, addend: u32)
    ensures
        limbs_value(final(limbs)@) == limbs_value(old(limbs)@) * factor + addend,
        old(limbs)@.len() <= final(limbs)@.len() <= old(limbs)@.len() + 1,
{
    let ghost start = limbs@;
    let mut carry: u32 = addend;
    let mut i: usize = 0;
    let n: usize = limbs.len();
    assert(start.take(0) =~= Seq::<u32>::empty());
    assert(limbs@.take(0) =~= Seq::<u32>::empty());
    proof {
        assert(limbs_value(Seq::<u32>::empty()) == 0);
        assert(weight(0) == 1);
        assert(0 * factor == 0) by (nonlinear_arith);
        assert(addend * weight(0) == addend) by (nonlinear_arith)
            requires
                weight(0) == 1,
        ;
    }
    while i < n
        invariant
            i <= n,
            n == start.len(),
            limbs@.len() == n,
            forall|k: int| i <= k < n ==> limbs@[k] == start[k],
            limbs_value(limbs@.take(i as int)) + carry * weight(i as nat) == limbs_value(
                start.take(i as int),
            ) * factor + addend,
        decreases n - i,
    {
        let x: u32 = limbs[i];
        assert(x as int * factor as int + carry as int <= 0xFFFF_FFFF_FFFF_FFFF)
            by (nonlinear_arith)
            requires
                x <= 0xFFFF_FFFF,
                factor <= 0xFFFF_FFFF,
                carry <= 0xFFFF_FFFF,
        ;
        assert(x as int * factor as int >= 0) by (nonlinear_arith);
        assert(x as int * factor as int <= 0xFFFF_FFFF * 0xFFFF_FFFF) by (nonlinear_arith)
            requires
                x <= 0xFFFF_FFFF,
                factor <= 0xFFFF_FFFF,
        ;
        let t: u64 = x as u64 * factor as u64 + carry as u64;
        let low: u32 = (t % RADIX) as u32;
        let high: u32 = (t / RADIX) as u32;
        let ghost before = limbs@;
        limbs.set(i, low);
        proof {
            assert(limbs@.take(i as int) =~= before.take(i as int));
            lemma_take(limbs@, i as int);
            lemma_take(start, i as int);
            let w = weight(i as nat) as int;
            let p = limbs_value(before.take(i as int)) as int;
            let q = limbs_value(start.take(i as int)) as int;
            let f = factor as int;
            let c = carry as int;
            let lo = low as int;
            let hi = high as int;
            let a = addend as int;
            let y = x as int;
            assert(lo + 0x1_0000_0000 * hi == y * f + c);
            assert(p + lo * w + hi * (0x1_0000_0000 * w) == (q + y * w) * f + a)
                by (nonlinear_arith)
                requires
                    lo + 0x1_0000_0000 * hi == y * f + c,
                    p + c * w == q * f + a,
            ;
        }
        carry = high;
        i = i + 1;
    }
    assert(start.take(i as int) =~= start);
    assert(limbs@.take(i as int) =~= limbs@);
    if carry != 0 {
        let ghost before = limbs@;
        limbs.push(carry);
        assert(limbs@.drop_last() =~= before);
    } else {
        assert(carry * weight(i as nat) == 0) by (nonlinear_arith)
            requires
                carry == 0,
        ;
    }
}

/// Divide by a small divisor in place, and return what is left over.
fn shrink(limbs: &mut Vec<u32>, divisor: u32) -> (r: u32)
    requires
        divisor > 0,
    ensures
        limbs_value(final(limbs)@) == limbs_value(old(limbs)@) / (divisor as nat),
        r == limbs_value(old(limbs)@) % (divisor as nat),
        final(limbs)@.len() <= old(limbs)@.len(),
        final(limbs)@.len() == 0 || final(limbs)@.last() != 0,
{
    let ghost start = limbs@;
    let ghost d = divisor as int;
    let n: usize = limbs.len();
    let mut rest: u32 = 0;
    let mut i: usize = n;
    assert(start.take(n as int) =~= start);
    assert(limbs@.take(n as int) =~= start);
    proof {
        let v = limbs_value(start) as int;
        assert(v == (limbs_value(limbs@) - limbs_value(limbs@.take(n as int))) * d + 0 * weight(
            n as nat,
        ) + limbs_value(start.take(n as int))) by (nonlinear_arith)
            requires
                limbs_value(limbs@) == limbs_value(limbs@.take(n as int)),
                v == limbs_value(start.take(n as int)),
        ;
    }
    while i > 0
        invariant
            i <= n,
            n == start.len(),
            limbs@.len() == n,
            d == divisor,
            divisor > 0,
            rest < divisor,
            forall|k: int| 0 <= k < i ==> limbs@[k] == start[k],
            limbs_value(start) == (limbs_value(limbs@) - limbs_value(limbs@.take(i as int))) * d
                + rest * weight(i as nat) + limbs_value(start.take(i as int)),
        decreases i,
    {
        i = i - 1;
        let x: u32 = limbs[i];
        assert(rest as int * 0x1_0000_0000 + x <= 0xFFFF_FFFF_FFFF_FFFF);
        let t: u64 = rest as u64 * RADIX + x as u64;
        let q64: u64 = t / divisor as u64;
        assert(q64 < 0x1_0000_0000) by (nonlinear_arith)
            requires
                t < d * 0x1_0000_0000,
                q64 == t as int / d,
                d > 0,
        ;
        let q: u32 = q64 as u32;
        let left: u32 = (t % divisor as u64) as u32;
        let ghost before = limbs@;
        limbs.set(i, q);
        proof {
            assert(limbs@.take(i as int) =~= before.take(i as int));
            assert(before.take(i as int) =~= start.take(i as int));
            lemma_update(before, i as int, q);
            assert(limbs@ =~= before.update(i as int, q));
            lemma_take(before, i as int);
            lemma_take(start, i as int);
            lemma_fundamental_div_mod(t as int, d);
            let w = weight(i as nat) as int;
            let big = limbs_value(before) as int;
            let low = limbs_value(before.take(i as int)) as int;
            let qq = q as int;
            let y = x as int;
            let l = left as int;
            let rr = rest as int;
            assert(d * qq + l == rr * 0x1_0000_0000 + y);
            assert((big + (qq - y) * w - low) * d + l * w + low == (big - (low + y * w)) * d + rr
                * (0x1_0000_0000 * w) + (low + y * w)) by (nonlinear_arith)
                requires
                    d * qq + l == rr * 0x1_0000_0000 + y,
            ;
        }
        rest = left;
    }
    proof {
        assert(limbs@.take(0) =~= Seq::<u32>::empty());
        assert(start.take(0) =~= Seq::<u32>::empty());
        let v = limbs_value(start) as int;
        let q = limbs_value(limbs@) as int;
        let r = rest as int;
        assert(weight(0) == 1);
        assert(v == q * d + r) by (nonlinear_arith)
            requires
                v == (q - 0) * d + r * 1 + 0,
        ;
        lemma_fundamental_div_mod_converse(v, d, q, r);
    }
    trim(limbs);
    rest
}

/// Subtract in place.
fn take_away(a: &mut Vec<u32>, b: &[u32])
    requires
        limbs_value(b@) <= limbs_value(old(a)@),
        b@.len() <= old(a)@.len(),
    ensures
        limbs_value(final(a)@) == limbs_value(old(a)@) - limbs_value(b@),
        final(a)@.len() <= old(a)@.len(),
        final(a)@.len() == 0 || final(a)@.last() != 0,
{
    let ghost start = a@;
    let n: usize = a.len();
    let mut borrow: u32 = 0;
    let mut i: usize = 0;
    assert(b@.take(0) =~= Seq::<u32>::empty());
    while i < b.len()
        invariant
            i <= b@.len(),
            b@.len() <= n,
            n == start.len(),
            a@.len() == n,
            borrow <= 1,
            forall|k: int| i <= k < n ==> a@[k] == start[k],
            limbs_value(a@) + limbs_value(b@.take(i as int)) == limbs_value(start) + borrow
                * weight(i as nat),
        decreases b@.len() - i,
    {
        let x: u32 = a[i];
        let y: u64 = b[i] as u64 + borrow as u64;
        let less: bool = (x as u64) < y;
        let t: u64 = if less {
            x as u64 + RADIX - y
        } else {
            x as u64 - y
        };
        let low: u32 = t as u32;
        let ghost before = a@;
        a.set(i, low);
        proof {
            lemma_update(before, i as int, low);
            assert(a@ =~= before.update(i as int, low));
            lemma_take(b@, i as int);
            let w = weight(i as nat) as int;
            let next: int = if less {
                1
            } else {
                0
            };
            let lo = low as int;
            let xx = x as int;
            let yy = b@[i as int] as int;
            let c = borrow as int;
            assert(lo == xx - yy - c + next * 0x1_0000_0000);
            assert((lo - xx) * w + yy * w == 0 - c * w + next * (0x1_0000_0000 * w))
                by (nonlinear_arith)
                requires
                    lo == xx - yy - c + next * 0x1_0000_0000,
            ;
        }
        borrow = if less {
            1
        } else {
            0
        };
        i = i + 1;
    }
    assert(b@.take(i as int) =~= b@);
    let ghost whole = limbs_value(b@);
    while borrow != 0 && i < n
        invariant
            b@.len() <= i <= n,
            n == start.len(),
            a@.len() == n,
            borrow <= 1,
            whole == limbs_value(b@),
            limbs_value(a@) + whole == limbs_value(start) + borrow * weight(i as nat),
        decreases n - i,
    {
        let x: u32 = a[i];
        let ghost before = a@;
        let low: u32 = if x == 0 {
            0xFFFF_FFFF
        } else {
            x - 1
        };
        a.set(i, low);
        proof {
            lemma_update(before, i as int, low);
            assert(a@ =~= before.update(i as int, low));
            let w = weight(i as nat) as int;
            let next: int = if x == 0 {
                1
            } else {
                0
            };
            let lo = low as int;
            let xx = x as int;
            assert(lo == xx - 1 + next * 0x1_0000_0000);
            assert((lo - xx) * w == 0 - 1 * w + next * (0x1_0000_0000 * w)) by (nonlinear_arith)
                requires
                    lo == xx - 1 + next * 0x1_0000_0000,
            ;
        }
        borrow = if x == 0 {
            1
        } else {
            0
        };
        i = i + 1;
    }
    proof {
        if borrow != 0 {
            lemma_bounded(a@);
            assert(borrow * weight(i as nat) == weight(i as nat)) by (nonlinear_arith)
                requires
                    borrow == 1,
            ;
            assert(false);
        }
        assert(borrow * weight(i as nat) == 0) by (nonlinear_arith)
            requires
                borrow == 0,
        ;
    }
    trim(a);
}

/// Add two numbers.
fn sum(a: &[u32], b: &[u32]) -> (r: Vec<u32>)
    ensures
        limbs_value(r@) == limbs_value(a@) + limbs_value(b@),
        r@.len() == 0 || r@.last() != 0,
{
    let n: usize = if a.len() > b.len() {
        a.len()
    } else {
        b.len()
    };
    let mut out: Vec<u32> = Vec::new();
    let mut carry: u64 = 0;
    let mut i: usize = 0;
    let ghost x = a@ + Seq::new((n - a@.len()) as nat, |k: int| 0u32);
    let ghost y = b@ + Seq::new((n - b@.len()) as nat, |k: int| 0u32);
    proof {
        lemma_zeros(x, a@.len() as int);
        lemma_zeros(y, b@.len() as int);
        assert(x.take(a@.len() as int) =~= a@);
        assert(y.take(b@.len() as int) =~= b@);
        assert(x.take(0) =~= Seq::<u32>::empty());
        assert(y.take(0) =~= Seq::<u32>::empty());
    }
    while i < n
        invariant
            i <= n,
            a@.len() <= n,
            b@.len() <= n,
            x == a@ + Seq::new((n - a@.len()) as nat, |k: int| 0u32),
            y == b@ + Seq::new((n - b@.len()) as nat, |k: int| 0u32),
            out@.len() == i,
            carry <= 1,
            limbs_value(out@) + carry * weight(i as nat) == limbs_value(x.take(i as int))
                + limbs_value(y.take(i as int)),
        decreases n - i,
    {
        let p: u64 = if i < a.len() {
            a[i] as u64
        } else {
            0
        };
        let q: u64 = if i < b.len() {
            b[i] as u64
        } else {
            0
        };
        assert(p == x[i as int]);
        assert(q == y[i as int]);
        let t: u64 = p + q + carry;
        let low: u32 = (t % RADIX) as u32;
        let ghost before = out@;
        out.push(low);
        proof {
            assert(out@.drop_last() =~= before);
            lemma_take(x, i as int);
            lemma_take(y, i as int);
            let w = weight(i as nat) as int;
            let lo = low as int;
            let hi = (t / RADIX) as int;
            let pp = p as int;
            let qq = q as int;
            let c = carry as int;
            assert(lo + 0x1_0000_0000 * hi == pp + qq + c);
            assert(lo * w + hi * (0x1_0000_0000 * w) == pp * w + qq * w + c * w)
                by (nonlinear_arith)
                requires
                    lo + 0x1_0000_0000 * hi == pp + qq + c,
            ;
        }
        carry = t / RADIX;
        i = i + 1;
    }
    assert(x.take(i as int) =~= x);
    assert(y.take(i as int) =~= y);
    if carry != 0 {
        let ghost before = out@;
        out.push(1);
        assert(out@.drop_last() =~= before);
    } else {
        assert(carry * weight(i as nat) == 0) by (nonlinear_arith)
            requires
                carry == 0,
        ;
    }
    trim(&mut out);
    out
}

/// Add a row of a product in place: `x` times `b`, from limb `i` on.
fn add_row(out: &mut Vec<u32>, b: &[u32], x: u32, i: usize)
    requires
        i + b@.len() < old(out)@.len(),
        limbs_value(old(out)@) + x as nat * limbs_value(b@) * weight(i as nat) < weight(
            old(out)@.len(),
        ),
    ensures
        final(out)@.len() == old(out)@.len(),
        limbs_value(final(out)@) == limbs_value(old(out)@) + x as nat * limbs_value(b@) * weight(
            i as nat,
        ),
{
    let ghost start = out@;
    let n: usize = out.len();
    let mut carry: u32 = 0;
    let mut j: usize = 0;
    assert(b@.take(0) =~= Seq::<u32>::empty());
    assert(x as int * 0 * weight(i as nat) == 0) by (nonlinear_arith);
    while j < b.len()
        invariant
            j <= b@.len(),
            i + b@.len() < n,
            n == start.len(),
            out@.len() == n,
            limbs_value(out@) + carry * weight((i + j) as nat) == limbs_value(start) + x as nat
                * limbs_value(b@.take(j as int)) * weight(i as nat),
        decreases b@.len() - j,
    {
        let old_limb: u32 = out[i + j];
        let y: u32 = b[j];
        assert(x as int * y as int + old_limb as int + carry as int <= 0xFFFF_FFFF_FFFF_FFFF)
            by (nonlinear_arith)
            requires
                x <= 0xFFFF_FFFF,
                y <= 0xFFFF_FFFF,
                old_limb <= 0xFFFF_FFFF,
                carry <= 0xFFFF_FFFF,
        ;
        assert(0 <= x as int * y as int <= 0xFFFF_FFFF * 0xFFFF_FFFF) by (nonlinear_arith)
            requires
                x <= 0xFFFF_FFFF,
                y <= 0xFFFF_FFFF,
        ;
        let t: u64 = x as u64 * y as u64 + old_limb as u64 + carry as u64;
        let low: u32 = (t % RADIX) as u32;
        let high: u32 = (t / RADIX) as u32;
        let ghost before = out@;
        out.set(i + j, low);
        proof {
            lemma_update(before, i + j, low);
            assert(out@ =~= before.update(i + j, low));
            lemma_take(b@, j as int);
            lemma_weight_sum(i as nat, j as nat);
            let w = weight((i + j) as nat) as int;
            let wi = weight(i as nat) as int;
            let wj = weight(j as nat) as int;
            let lo = low as int;
            let hi = high as int;
            let o = old_limb as int;
            let c = carry as int;
            let xx = x as int;
            let yy = y as int;
            let v = limbs_value(b@.take(j as int)) as int;
            assert(lo + 0x1_0000_0000 * hi == xx * yy + o + c);
            assert(xx * (v + yy * wj) * wi == xx * v * wi + xx * yy * (wi * wj))
                by (nonlinear_arith);
            assert((lo - o) * w + hi * (0x1_0000_0000 * w) == xx * yy * w + c * w)
                by (nonlinear_arith)
                requires
                    lo + 0x1_0000_0000 * hi == xx * yy + o + c,
            ;
        }
        carry = high;
        j = j + 1;
    }
    assert(b@.take(j as int) =~= b@);
    let mut k: usize = i + b.len();
    let ghost target = limbs_value(start) + x as nat * limbs_value(b@) * weight(i as nat);
    while carry != 0 && k < n
        invariant
            k <= n,
            out@.len() == n,
            target < weight(n as nat),
            limbs_value(out@) + carry * weight(k as nat) == target,
        decreases n - k,
    {
        let t: u64 = out[k] as u64 + carry as u64;
        let low: u32 = (t % RADIX) as u32;
        let high: u32 = (t / RADIX) as u32;
        let ghost before = out@;
        out.set(k, low);
        proof {
            lemma_update(before, k as int, low);
            assert(out@ =~= before.update(k as int, low));
            let w = weight(k as nat) as int;
            let lo = low as int;
            let hi = high as int;
            let o = before[k as int] as int;
            let c = carry as int;
            assert(lo + 0x1_0000_0000 * hi == o + c);
            assert((lo - o) * w + hi * (0x1_0000_0000 * w) == c * w) by (nonlinear_arith)
                requires
                    lo + 0x1_0000_0000 * hi == o + c,
            ;
        }
        carry = high;
        k = k + 1;
    }
    proof {
        if carry != 0 {
            let w = weight(n as nat) as int;
            let c = carry as int;
            assert(c * w >= w) by (nonlinear_arith)
                requires
                    c >= 1,
                    w >= 0,
            ;
            assert(false);
        }
        assert(carry * weight(k as nat) == 0) by (nonlinear_arith)
            requires
                carry == 0,
        ;
    }
}

proof fn lemma_weight_sum(a: nat, b: nat)
    ensures
        weight(a + b) == weight(a) * weight(b),
    decreases b,
{
    if b == 0 {
        assert(weight(a) * 1 == weight(a)) by (nonlinear_arith);
    } else {
        lemma_weight_sum(a, (b - 1) as nat);
        let x = weight(a) as int;
        let y = weight((b - 1) as nat) as int;
        assert(0x1_0000_0000 * (x * y) == x * (0x1_0000_0000 * y)) by (nonlinear_arith);
        assert(weight(a + b) == 0x1_0000_0000 * weight((a + b - 1) as nat));
    }
}

/// Multiply two numbers.
fn product(a: &[u32], b: &[u32]) -> (r: Vec<u32>)
    requires
        a@.len() + b@.len() + 1 <= usize::MAX,
    ensures
        limbs_value(r@) == limbs_value(a@) * limbs_value(b@),
        r@.len() == 0 || r@.last() != 0,
{
    let n: usize = a.len() + b.len() + 1;
    let mut out: Vec<u32> = Vec::new();
    let mut z: usize = 0;
    while z < n
        invariant
            z <= n,
            out@.len() == z,
            forall|k: int| 0 <= k < z ==> out@[k] == 0,
        decreases n - z,
    {
        out.push(0);
        z = z + 1;
    }
    proof {
        lemma_zeros(out@, 0);
        assert(out@.take(0) =~= Seq::<u32>::empty());
        assert(a@.take(0) =~= Seq::<u32>::empty());
        assert(0 * limbs_value(b@) == 0) by (nonlinear_arith);
    }
    let mut i: usize = 0;
    while i < a.len()
        invariant
            i <= a@.len(),
            n == a@.len() + b@.len() + 1,
            out@.len() == n,
            limbs_value(out@) == limbs_value(a@.take(i as int)) * limbs_value(b@),
        decreases a@.len() - i,
    {
        let x: u32 = a[i];
        proof {
            lemma_take(a@, i as int);
            let u = limbs_value(a@.take(i as int)) as int;
            let v = limbs_value(b@) as int;
            let w = weight(i as nat) as int;
            let xx = x as int;
            assert((u + xx * w) * v == u * v + xx * v * w) by (nonlinear_arith);
            lemma_bounded(a@.take(i + 1));
            lemma_bounded(b@);
            lemma_weight_sum((i + 1) as nat, b@.len());
            lemma_weight_monotonic((i + 1 + b@.len()) as nat, n as nat);
            let p = limbs_value(a@.take(i + 1)) as int;
            let wp = weight((i + 1) as nat) as int;
            let wb = weight(b@.len()) as int;
            assert(p * v < wp * wb) by (nonlinear_arith)
                requires
                    0 <= p < wp,
                    0 <= v < wb,
            ;
        }
        add_row(&mut out, b, x, i);
        i = i + 1;
    }
    assert(a@.take(i as int) =~= a@);
    trim(&mut out);
    out
}

/// A multiple taken away leaves the remainder alone.
proof fn lemma_less_multiple(v: int, q: int, m: int)
    requires
        m > 0,
    ensures
        (v - q * m) % m == v % m,
{
    lemma_mod_multiples_vanish(-q, v, m);
    assert(m * (-q) + v == v - q * m) by (nonlinear_arith);
}

/// A guess at how often `m` goes into `r`, at least once and never much too
/// low. Whether it is too high is checked by whoever uses it.
fn quotient_guess(r: &[u32], m: &[u32]) -> (q: u32)
    requires
        m@.len() > 0,
        r@.len() >= m@.len(),
    ensures
        q >= 1,
{
    let n: usize = m.len();
    let top: u64 = m[n - 1] as u64;
    let high: u64 = if r.len() > n {
        r[n] as u64 * RADIX + r[n - 1] as u64
    } else {
        r[n - 1] as u64
    };
    let guess: u64 = high / (top + 1);
    if guess == 0 {
        1
    } else if guess > 0xFFFF_FFFF {
        0xFFFF_FFFF
    } else {
        guess as u32
    }
}

/// Take multiples of `m` away until what is left is below it.
fn reduce_below(r: &mut Vec<u32>, m: &[u32])
    requires
        m@.len() > 0,
        m@.last() != 0,
        old(r)@.len() == 0 || old(r)@.last() != 0,
    ensures
        limbs_value(final(r)@) == limbs_value(old(r)@) % limbs_value(m@),
        final(r)@.len() == 0 || final(r)@.last() != 0,
{
    let ghost v = limbs_value(r@) as int;
    let ghost mv = limbs_value(m@) as int;
    proof {
        lemma_at_least(m@);
        lemma_weight_positive((m@.len() - 1) as nat);
    }
    while !below(r.as_slice(), m)
        invariant
            m@.len() > 0,
            m@.last() != 0,
            mv == limbs_value(m@),
            mv > 0,
            r@.len() == 0 || r@.last() != 0,
            limbs_value(r@) as int % mv == v % mv,
        decreases limbs_value(r@),
    {
        proof {
            if r@.len() < m@.len() {
                lemma_bounded(r@);
                lemma_at_least(m@);
                lemma_weight_monotonic(r@.len(), (m@.len() - 1) as nat);
            }
        }
        let q: u32 = quotient_guess(r.as_slice(), m);
        let mut multiple: Vec<u32> = Vec::new();
        multiple.extend_from_slice(m);
        assert(multiple@ =~= m@);
        scale(&mut multiple, q, 0);
        trim(&mut multiple);
        let ghost before = limbs_value(r@) as int;
        if below(r.as_slice(), multiple.as_slice()) {
            take_away(r, m);
            proof {
                lemma_less_multiple(before, 1, mv);
                assert(1 * mv == mv) by (nonlinear_arith);
            }
        } else {
            proof {
                if multiple@.len() > r@.len() {
                    lemma_bounded(r@);
                    lemma_at_least(multiple@);
                    lemma_weight_monotonic(r@.len(), (multiple@.len() - 1) as nat);
                }
                let qq = q as int;
                assert(mv * qq >= mv) by (nonlinear_arith)
                    requires
                        qq >= 1,
                        mv > 0,
                ;
                lemma_less_multiple(before, qq, mv);
                assert(qq * mv == mv * qq) by (nonlinear_arith);
            }
            take_away(r, multiple.as_slice());
        }
    }
    proof {
        lemma_small_mod(limbs_value(r@), mv as nat);
    }
}

/// The remainder of a number.
fn remainder(a: &[u32], m: &[u32]) -> (r: Vec<u32>)
    requires
        m@.len() > 0,
        m@.last() != 0,
    ensures
        limbs_value(r@) == limbs_value(a@) % limbs_value(m@),
        r@.len() == 0 || r@.last() != 0,
{
    let ghost mv = limbs_value(m@) as int;
    proof {
        lemma_at_least(m@);
        lemma_weight_positive((m@.len() - 1) as nat);
    }
    let mut r: Vec<u32> = Vec::new();
    let mut i: usize = a.len();
    let ghost high = a@.skip(i as int);
    proof {
        assert(high =~= Seq::<u32>::empty());
        lemma_small_mod(0, mv as nat);
    }
    while i > 0
        invariant
            i <= a@.len(),
            m@.len() > 0,
            m@.last() != 0,
            mv == limbs_value(m@),
            mv > 0,
            r@.len() == 0 || r@.last() != 0,
            limbs_value(r@) == limbs_value(a@.skip(i as int)) as int % mv,
        decreases i,
    {
        i = i - 1;
        let x: u32 = a[i];
        let ghost before = r@;
        r.insert(0, x);
        proof {
            assert(r@ =~= seq![x] + before);
            lemma_front(before, x);
            assert(a@.skip(i as int) =~= seq![x] + a@.skip(i + 1));
            lemma_front(a@.skip(i + 1), x);
            let u = limbs_value(a@.skip(i + 1)) as int;
            let b = limbs_value(before) as int;
            lemma_fundamental_div_mod(u, mv);
            let k = u / mv;
            lemma_mod_multiples_vanish(0x1_0000_0000 * k, x + 0x1_0000_0000 * b, mv);
            assert(mv * (0x1_0000_0000 * k) + (x + 0x1_0000_0000 * b) == x + 0x1_0000_0000 * u)
                by (nonlinear_arith)
                requires
                    u == mv * k + b,
            ;
        }
        trim(&mut r);
        reduce_below(&mut r, m);
    }
    assert(a@.skip(0) =~= a@);
    r
}

/// Take multiples of `m` away until what is left is below it, and count them.
fn reduce_counting(r: &mut Vec<u32>, m: &[u32]) -> (count: u32)
    requires
        m@.len() > 0,
        m@.last() != 0,
        old(r)@.len() == 0 || old(r)@.last() != 0,
        limbs_value(old(r)@) < 0x1_0000_0000 * limbs_value(m@),
    ensures
        limbs_value(old(r)@) == count * limbs_value(m@) + limbs_value(final(r)@),
        limbs_value(final(r)@) < limbs_value(m@),
        final(r)@.len() == 0 || final(r)@.last() != 0,
{
    let ghost v = limbs_value(r@) as int;
    let ghost mv = limbs_value(m@) as int;
    let mut count: u32 = 0;
    proof {
        lemma_at_least(m@);
        lemma_weight_positive((m@.len() - 1) as nat);
        assert(0 * mv == 0) by (nonlinear_arith);
    }
    while !below(r.as_slice(), m)
        invariant
            m@.len() > 0,
            m@.last() != 0,
            mv == limbs_value(m@),
            mv > 0,
            v < 0x1_0000_0000 * mv,
            r@.len() == 0 || r@.last() != 0,
            v == count * mv + limbs_value(r@),
        decreases limbs_value(r@),
    {
        proof {
            if r@.len() < m@.len() {
                lemma_bounded(r@);
                lemma_at_least(m@);
                lemma_weight_monotonic(r@.len(), (m@.len() - 1) as nat);
            }
        }
        let q: u32 = quotient_guess(r.as_slice(), m);
        let mut multiple: Vec<u32> = Vec::new();
        multiple.extend_from_slice(m);
        assert(multiple@ =~= m@);
        scale(&mut multiple, q, 0);
        trim(&mut multiple);
        let ghost before = limbs_value(r@) as int;
        let ghost c = count as int;
        if below(r.as_slice(), multiple.as_slice()) {
            take_away(r, m);
            proof {
                lemma_count(v, c, 1, before, mv);
                assert(1 * mv == mv) by (nonlinear_arith);
            }
            count = count + 1;
        } else {
            proof {
                if multiple@.len() > r@.len() {
                    lemma_bounded(r@);
                    lemma_at_least(multiple@);
                    lemma_weight_monotonic(r@.len(), (multiple@.len() - 1) as nat);
                }
                let qq = q as int;
                assert(mv * qq >= mv) by (nonlinear_arith)
                    requires
                        qq >= 1,
                        mv > 0,
                ;
                assert(qq * mv == mv * qq) by (nonlinear_arith);
                lemma_count(v, c, qq, before, mv);
            }
            take_away(r, multiple.as_slice());
            count = count + q;
        }
    }
    count
}

/// Taking `q` more multiples away keeps the count in one limb.
proof fn lemma_count(v: int, c: int, q: int, before: int, mv: int)
    requires
        mv > 0,
        v < 0x1_0000_0000 * mv,
        v == c * mv + before,
        q * mv <= before,
    ensures
        v == (c + q) * mv + (before - q * mv),
        c + q < 0x1_0000_0000,
{
    assert((c + q) * mv == c * mv + q * mv) by (nonlinear_arith);
    assert(c + q < 0x1_0000_0000) by (nonlinear_arith)
        requires
            (c + q) * mv < 0x1_0000_0000 * mv,
            mv > 0,
    ;
}

/// The quotient of a number.
fn quotient(a: &[u32], m: &[u32]) -> (q: Vec<u32>)
    requires
        m@.len() > 0,
        m@.last() != 0,
    ensures
        limbs_value(q@) == limbs_value(a@) / limbs_value(m@),
{
    let ghost mv = limbs_value(m@) as int;
    proof {
        lemma_at_least(m@);
        lemma_weight_positive((m@.len() - 1) as nat);
        assert(a@.skip(a@.len() as int) =~= Seq::<u32>::empty());
        assert(0 * mv == 0) by (nonlinear_arith);
    }
    let mut r: Vec<u32> = Vec::new();
    let mut q: Vec<u32> = Vec::new();
    let mut i: usize = a.len();
    while i > 0
        invariant
            i <= a@.len(),
            m@.len() > 0,
            m@.last() != 0,
            mv == limbs_value(m@),
            mv > 0,
            r@.len() == 0 || r@.last() != 0,
            limbs_value(r@) < mv,
            limbs_value(a@.skip(i as int)) == limbs_value(q@) * mv + limbs_value(r@),
        decreases i,
    {
        i = i - 1;
        let x: u32 = a[i];
        let ghost before = r@;
        let ghost done = q@;
        r.insert(0, x);
        proof {
            assert(r@ =~= seq![x] + before);
            lemma_front(before, x);
            assert(a@.skip(i as int) =~= seq![x] + a@.skip(i + 1));
            lemma_front(a@.skip(i + 1), x);
        }
        trim(&mut r);
        let d: u32 = reduce_counting(&mut r, m);
        q.insert(0, d);
        proof {
            assert(q@ =~= seq![d] + done);
            lemma_front(done, d);
            let p = limbs_value(done) as int;
            let b = limbs_value(before) as int;
            let rr = limbs_value(r@) as int;
            let dd = d as int;
            let xx = x as int;
            assert(xx + 0x1_0000_0000 * (p * mv + b) == (dd + 0x1_0000_0000 * p) * mv + rr)
                by (nonlinear_arith)
                requires
                    xx + 0x1_0000_0000 * b == dd * mv + rr,
            ;
        }
    }
    proof {
        assert(a@.skip(0) =~= a@);
        lemma_fundamental_div_mod_converse(
            limbs_value(a@) as int,
            mv,
            limbs_value(q@) as int,
            limbs_value(r@) as int,
        );
    }
    q
}

impl BigNum {
    /// Zero.
    pub fn zero() -> (r: BigNum)
        ensures
            r@ == 0,
    {
        BigNum { limbs: Vec::new() }
    }

    /// A small number.
    pub fn small(v: u32) -> (r: BigNum)
        ensures
            r@ == v,
    {
        let mut limbs: Vec<u32> = Vec::new();
        limbs.push(v);
        assert(limbs@.drop_last() =~= Seq::<u32>::empty());
        assert(limbs_value(limbs@.drop_last()) == 0);
        assert(weight(0) == 1);
        assert(v as nat * 1 == v) by (nonlinear_arith);
        trim(&mut limbs);
        BigNum { limbs }
    }

    /// The number that octets stand for.
    pub fn from_bytes(octets: &[u8]) -> (r: BigNum)
        ensures
            r@ == number_of(octets@),
    {
        let mut limbs: Vec<u32> = Vec::new();
        let mut i: usize = 0;
        assert(octets@.take(0) =~= Seq::<u8>::empty());
        while i < octets.len()
            invariant
                i <= octets@.len(),
                limbs_value(limbs@) == number_of(octets@.take(i as int)),
            decreases octets@.len() - i,
        {
            proof {
                assert(octets@.take(i + 1).drop_last() =~= octets@.take(i as int));
            }
            scale(&mut limbs, 256, octets[i] as u32);
            i = i + 1;
        }
        assert(octets@.take(i as int) =~= octets@);
        trim(&mut limbs);
        BigNum { limbs }
    }

    /// A copy.
    pub fn copy(&self) -> (r: BigNum)
        ensures
            r@ == self@,
    {
        let mut limbs: Vec<u32> = Vec::new();
        limbs.extend_from_slice(self.limbs.as_slice());
        assert(limbs@ =~= self.limbs@);
        trim(&mut limbs);
        BigNum { limbs }
    }

    /// The lowest `len` octets.
    pub fn to_bytes_padded(&self, len: usize) -> (r: Vec<u8>)
        ensures
            r@ == octets_of(self@, len as nat),
            r@.len() == len,
    {
        let mut limbs: Vec<u32> = Vec::new();
        limbs.extend_from_slice(self.limbs.as_slice());
        assert(limbs@ =~= self.limbs@);
        let mut back: Vec<u8> = Vec::new();
        let mut i: usize = 0;
        let ghost v = limbs_value(limbs@);
        while i < len
            invariant
                i <= len,
                back@.len() == i,
                octets_of(v, len as nat) == octets_of(limbs_value(limbs@), (len - i) as nat)
                    + back@.reverse(),
            decreases len - i,
        {
            let ghost n = limbs_value(limbs@);
            let ghost before = back@;
            let low: u32 = shrink(&mut limbs, 256);
            back.push(low as u8);
            proof {
                assert(octets_of(n, (len - i) as nat) == octets_of(
                    n / 256,
                    (len - i - 1) as nat,
                ).push((n % 256) as u8));
                assert(back@.reverse() =~= seq![low as u8] + before.reverse());
                assert(octets_of(n / 256, (len - i - 1) as nat).push((n % 256) as u8)
                    + before.reverse() =~= octets_of(n / 256, (len - i - 1) as nat)
                    + back@.reverse());
            }
            i = i + 1;
        }
        let mut out: Vec<u8> = Vec::new();
        let mut k: usize = len;
        while k > 0
            invariant
                k <= len,
                back@.len() == len,
                out@.len() == len - k,
                forall|j: int| 0 <= j < len - k ==> out@[j] == back@[len - 1 - j],
            decreases k,
        {
            k = k - 1;
            out.push(back[k]);
        }
        proof {
            assert(out@ =~= back@.reverse());
            assert(octets_of(limbs_value(limbs@), 0) =~= Seq::<u8>::empty());
            assert(out@ =~= octets_of(v, len as nat));
        }
        out
    }

    /// True for zero.
    pub fn is_zero(&self) -> (r: bool)
        ensures
            r == (self@ == 0),
    {
        let mut limbs: Vec<u32> = Vec::new();
        limbs.extend_from_slice(self.limbs.as_slice());
        assert(limbs@ =~= self.limbs@);
        trim(&mut limbs);
        proof {
            if limbs@.len() > 0 {
                lemma_at_least(limbs@);
                lemma_weight_positive((limbs@.len() - 1) as nat);
            }
        }
        limbs.len() == 0
    }

    /// The limbs without those of zero at the top.
    fn trimmed(&self) -> (r: Vec<u32>)
        ensures
            limbs_value(r@) == self@,
            r@.len() == 0 || r@.last() != 0,
    {
        let mut limbs: Vec<u32> = Vec::new();
        limbs.extend_from_slice(self.limbs.as_slice());
        assert(limbs@ =~= self.limbs@);
        trim(&mut limbs);
        limbs
    }

    /// True when this number is below the other.
    pub fn less(&self, other: &BigNum) -> (r: bool)
        ensures
            r == (self@ < other@),
    {
        let a: Vec<u32> = self.trimmed();
        let b: Vec<u32> = other.trimmed();
        below(a.as_slice(), b.as_slice())
    }

    /// True when the two are the same number.
    pub fn same(&self, other: &BigNum) -> (r: bool)
        ensures
            r == (self@ == other@),
    {
        !self.less(other) && !other.less(self)
    }

    /// The sum.
    pub fn plus(&self, other: &BigNum) -> (r: BigNum)
        ensures
            r@ == self@ + other@,
    {
        BigNum { limbs: sum(self.limbs.as_slice(), other.limbs.as_slice()) }
    }

    /// The difference, zero when the other is the larger.
    pub fn minus(&self, other: &BigNum) -> (r: BigNum)
        ensures
            r@ == (if other@ <= self@ {
                (self@ - other@) as nat
            } else {
                0
            }),
    {
        let mut a: Vec<u32> = self.trimmed();
        let b: Vec<u32> = other.trimmed();
        if below(a.as_slice(), b.as_slice()) {
            return BigNum::zero();
        }
        proof {
            if b@.len() > a@.len() {
                lemma_bounded(a@);
                lemma_at_least(b@);
                lemma_weight_monotonic(a@.len(), (b@.len() - 1) as nat);
            }
        }
        take_away(&mut a, b.as_slice());
        BigNum { limbs: a }
    }

    /// The product.
    pub fn times(&self, other: &BigNum) -> (r: BigNum)
        ensures
            r@ == self@ * other@,
    {
        let a: Vec<u32> = self.trimmed();
        let b: Vec<u32> = other.trimmed();
        if a.len() > 0x7FFF_0000 || b.len() > 0x7FFF_0000 {
            return BigNum { limbs: slow_product(a.as_slice(), b.as_slice()) };
        }
        BigNum { limbs: product(a.as_slice(), b.as_slice()) }
    }

    /// The remainder, zero when the modulus is zero.
    pub fn modulo(&self, m: &BigNum) -> (r: BigNum)
        ensures
            r@ == (if m@ == 0 {
                0
            } else {
                self@ % m@
            }),
    {
        let b: Vec<u32> = m.trimmed();
        if b.len() == 0 {
            return BigNum::zero();
        }
        proof {
            lemma_at_least(b@);
            lemma_weight_positive((b@.len() - 1) as nat);
        }
        BigNum { limbs: remainder(self.limbs.as_slice(), b.as_slice()) }
    }

    /// The quotient, zero when the divisor is zero.
    pub fn divide(&self, m: &BigNum) -> (r: BigNum)
        ensures
            r@ == (if m@ == 0 {
                0
            } else {
                self@ / m@
            }),
    {
        let b: Vec<u32> = m.trimmed();
        if b.len() == 0 {
            return BigNum::zero();
        }
        proof {
            lemma_at_least(b@);
            lemma_weight_positive((b@.len() - 1) as nat);
        }
        BigNum { limbs: quotient(self.limbs.as_slice(), b.as_slice()) }
    }

    /// The quotient and the remainder of a small divisor.
    pub fn divide_small(&self, divisor: u32) -> (r: (BigNum, u32))
        requires
            divisor > 0,
        ensures
            r.0@ == self@ / (divisor as nat),
            r.1 == self@ % (divisor as nat),
    {
        let mut limbs: Vec<u32> = self.trimmed();
        let rest: u32 = shrink(&mut limbs, divisor);
        (BigNum { limbs }, rest)
    }

    /// The bits, the lowest first.
    fn low_bits(&self) -> (r: Vec<bool>)
        ensures
            bits_value(r@) == self@,
            r@.len() == bit_length(self@),
    {
        let mut limbs: Vec<u32> = self.trimmed();
        let mut out: Vec<bool> = Vec::new();
        let ghost v = self@;
        assert(out@ =~= Seq::<bool>::empty());
        assert(v * two_to(0) == v) by (nonlinear_arith)
            requires
                two_to(0) == 1,
        ;
        while limbs.len() > 0
            invariant
                v == bits_value(out@) + limbs_value(limbs@) * two_to(out@.len()),
                bit_length(v) == out@.len() + bit_length(limbs_value(limbs@)),
                limbs@.len() == 0 || limbs@.last() != 0,
            decreases limbs_value(limbs@),
        {
            let ghost n = limbs_value(limbs@);
            let ghost before = out@;
            proof {
                lemma_at_least(limbs@);
                lemma_weight_positive((limbs@.len() - 1) as nat);
            }
            let low: u32 = shrink(&mut limbs, 2);
            out.push(low == 1);
            proof {
                lemma_bits_push(before, low == 1);
                let p = two_to(before.len()) as int;
                let h = limbs_value(limbs@) as int;
                let l = low as int;
                assert(n == 2 * h + l);
                assert(n * p == h * (2 * p) + l * p) by (nonlinear_arith)
                    requires
                        n == 2 * h + l,
                ;
                assert(low == 1 ==> l * p == p) by (nonlinear_arith)
                    requires
                        l == low,
                ;
                assert(low == 0 ==> l * p == 0) by (nonlinear_arith)
                    requires
                        l == low,
                ;
            }
        }
        assert(limbs_value(limbs@) * two_to(out@.len()) == 0) by (nonlinear_arith)
            requires
                limbs_value(limbs@) == 0,
        ;
        out
    }

    /// The bits, the highest first. The first is always set.
    pub fn high_bits(&self) -> (r: Vec<bool>)
        ensures
            high_value(r@) == self@,
            r@.len() == bit_length(self@),
    {
        let low: Vec<bool> = self.low_bits();
        let mut out: Vec<bool> = Vec::new();
        let mut i: usize = low.len();
        while i > 0
            invariant
                i <= low@.len(),
                out@.len() == low@.len() - i,
                forall|k: int| 0 <= k < out@.len() ==> out@[k] == low@[low@.len() - 1 - k],
            decreases i,
        {
            i = i - 1;
            out.push(low[i]);
        }
        proof {
            assert(out@ =~= low@.reverse());
            lemma_reversed(low@);
        }
        out
    }

    /// How many bits the number takes.
    pub fn bits(&self) -> (r: usize)
        ensures
            r == bit_length(self@),
    {
        self.low_bits().len()
    }

    /// The octets, without any of zero in front.
    pub fn to_bytes(&self) -> (r: Vec<u8>)
        ensures
            r@ == octets_of(self@, octet_length(self@)),
    {
        let bits: usize = self.bits();
        let len: usize = if bits % 8 == 0 {
            bits / 8
        } else {
            bits / 8 + 1
        };
        self.to_bytes_padded(len)
    }

    /// The number and a small one.
    pub fn add_word(&self, v: u32) -> (r: BigNum)
        ensures
            r@ == self@ + v,
    {
        self.plus(&BigNum::small(v))
    }

    /// The number less a small one, zero when that is the larger.
    pub fn sub_word(&self, v: u32) -> (r: BigNum)
        ensures
            r@ == (if v <= self@ {
                (self@ - v) as nat
            } else {
                0
            }),
    {
        self.minus(&BigNum::small(v))
    }

    /// The difference, modulo `m`.
    pub fn minus_mod(&self, other: &BigNum, m: &BigNum) -> (r: BigNum)
        requires
            m@ > 0,
            other@ <= m@,
        ensures
            r@ == minus_mod(self@, other@, m@),
    {
        self.plus(&m.minus(other)).modulo(m)
    }

    /// The inverse modulo an odd number, zero when there is none.
    pub fn inverse_mod(&self, m: &BigNum) -> (r: BigNum)
        requires
            m@ > 1,
            m@ % 2 == 1,
        ensures
            r@ == inverse(self@, m@),
    {
        let ghost a = self@ as int;
        let ghost n = m@ as int;
        let mut x: BigNum = self.modulo(m);
        let mut y: BigNum = m.copy();
        let mut u: BigNum = BigNum::small(1);
        let mut v: BigNum = BigNum::zero();
        proof {
            lemma_start(a, n);
        }
        while !x.is_zero()
            invariant
                a == self@,
                n == m@,
                n > 1,
                n % 2 == 1,
                y@ % 2 == 1,
                u@ < n,
                v@ < n,
                (a * u@ - x@) % n == 0,
                (a * v@ - y@) % n == 0,
                common(x@ as int, y@ as int, a, n),
            decreases x@ + y@,
        {
            let (half, odd) = x.divide_small(2);
            if odd == 0 {
                proof {
                    lemma_common_half(x@ as int, y@ as int, a, n);
                    lemma_half(a, u@ as int, x@ as int, n);
                }
                u = u.half_mod(m);
                x = half;
            } else if x.less(&y) {
                proof {
                    lemma_common_minus(y@ as int, x@ as int, a, n);
                    lemma_minus(a, v@ as int, u@ as int, y@ as int, x@ as int, n);
                }
                let rest: BigNum = y.minus(&x);
                let w: BigNum = v.minus_mod(&u, m);
                y = x;
                v = u;
                x = rest;
                u = w;
            } else {
                proof {
                    lemma_common_minus(x@ as int, y@ as int, a, n);
                    lemma_minus(a, u@ as int, v@ as int, x@ as int, y@ as int, n);
                }
                u = u.minus_mod(&v, m);
                x = x.minus(&y);
            }
        }
        if y.same(&BigNum::small(1)) {
            proof {
                lemma_remainder_one(a * v@, n);
                lemma_inverse(a as nat, v@, n as nat);
            }
            v
        } else {
            proof {
                let g = y@ as int;
                assert(0int % g == 0 && g % g == 0) by (nonlinear_arith)
                    requires
                        g > 0,
                ;
                assert(a % g == 0 && n % g == 0);
                lemma_no_inverse(a as nat, n as nat, g as nat);
            }
            BigNum::zero()
        }
    }

    /// Half of a number modulo an odd number.
    fn half_mod(&self, m: &BigNum) -> (r: BigNum)
        requires
            self@ < m@,
            m@ % 2 == 1,
        ensures
            r@ == half_mod(self@, m@),
            r@ < m@,
    {
        let (half, odd) = self.divide_small(2);
        if odd == 0 {
            half
        } else {
            self.plus(m).divide_small(2).0
        }
    }

    /// The product, modulo `m`.
    pub fn times_mod(&self, other: &BigNum, m: &BigNum) -> (r: BigNum)
        requires
            m@ > 0,
        ensures
            r@ == (self@ * other@) % m@,
    {
        self.times(other).modulo(m)
    }

    /// A power, modulo `m`.
    pub fn power_mod(&self, e: &BigNum, m: &BigNum) -> (r: BigNum)
        requires
            m@ > 0,
        ensures
            r@ == power_mod(self@, e@, m@),
            r@ < m@,
    {
        let bits: Vec<bool> = e.high_bits();
        let mut acc: BigNum = BigNum::small(1).modulo(m);
        let mut i: usize = 0;
        assert(bits@.take(0) =~= Seq::<bool>::empty());
        while i < bits.len()
            invariant
                i <= bits@.len(),
                m@ > 0,
                acc@ == power_mod(self@, high_value(bits@.take(i as int)), m@),
                acc@ < m@,
            decreases bits@.len() - i,
        {
            proof {
                let t = bits@.take(i + 1);
                assert(t.drop_last() =~= bits@.take(i as int));
                assert(t.last() == bits@[i as int]);
            }
            let square: BigNum = acc.times_mod(&acc, m);
            let ghost h = high_value(bits@.take(i as int));
            proof {
                if h == 0 && !bits@[i as int] {
                    lemma_one_squared(m@);
                }
                assert(power_mod(self@, 0, m@) == 1nat % m@);
            }
            if bits[i] {
                acc = square.times_mod(self, m);
            } else {
                acc = square;
            }
            i = i + 1;
        }
        assert(bits@.take(i as int) =~= bits@);
        acc
    }
}

/// How many bits a number takes.
pub open spec fn bit_length(n: nat) -> nat
    decreases n,
{
    if n == 0 {
        0
    } else {
        1 + bit_length(n / 2)
    }
}

/// How many octets a number takes.
pub open spec fn octet_length(n: nat) -> nat {
    if bit_length(n) % 8 == 0 {
        bit_length(n) / 8
    } else {
        bit_length(n) / 8 + 1
    }
}

proof fn lemma_bit_length_half(n: nat)
    ensures
        bit_length(n) <= 1 + bit_length(n / 2),
{
}

/// A number takes no more octets than it was written in.
pub proof fn lemma_octet_length(s: Seq<u8>)
    ensures
        bit_length(number_of(s)) <= 8 * s.len(),
        octet_length(number_of(s)) <= s.len(),
    decreases s.len(),
{
    if s.len() > 0 {
        lemma_octet_length(s.drop_last());
        let n = number_of(s);
        lemma_bit_length_half(n);
        lemma_bit_length_half(n / 2);
        lemma_bit_length_half(n / 4);
        lemma_bit_length_half(n / 8);
        lemma_bit_length_half(n / 16);
        lemma_bit_length_half(n / 32);
        lemma_bit_length_half(n / 64);
        lemma_bit_length_half(n / 128);
        assert(n / 2 / 2 == n / 4 && n / 4 / 2 == n / 8 && n / 8 / 2 == n / 16 && n / 16 / 2 == n
            / 32 && n / 32 / 2 == n / 64 && n / 64 / 2 == n / 128 && n / 128 / 2 == n / 256);
        assert(n / 256 == number_of(s.drop_last()));
    }
}

/// The difference of two numbers, modulo `m`.
pub open spec fn minus_mod(a: nat, b: nat, m: nat) -> nat {
    (a + (m - b) as nat) % m
}

/// Half of a number, modulo an odd number.
pub open spec fn half_mod(a: nat, m: nat) -> nat {
    if a % 2 == 0 {
        a / 2
    } else {
        (a + m) / 2
    }
}

/// True when `r` is an inverse of `a` modulo `m`.
pub open spec fn is_inverse(a: nat, r: nat, m: nat) -> bool {
    r < m && (a * r) % m == 1
}

/// The inverse of `a` modulo `m`, zero when there is none.
#[verifier::opaque]
pub open spec fn inverse(a: nat, m: nat) -> nat {
    if exists|r: nat| is_inverse(a, r, m) {
        choose|r: nat| is_inverse(a, r, m)
    } else {
        0
    }
}

/// What divides `x` and `y` divides `a` and `n`.
spec fn common(x: int, y: int, a: int, n: int) -> bool {
    forall|d: int|
        #![trigger (x % d), (y % d)]
        d > 0 && x % d == 0 && y % d == 0 ==> a % d == 0 && n % d == 0
}

/// A sum of two multiples is one.
proof fn lemma_multiple_sum(p: int, q: int, n: int)
    requires
        n > 0,
        p % n == 0,
        q % n == 0,
    ensures
        (p + q) % n == 0,
        (p - q) % n == 0,
{
    lemma_fundamental_div_mod(p, n);
    lemma_fundamental_div_mod(q, n);
    let i = p / n;
    let j = q / n;
    assert(p + q == (i + j) * n + 0) by (nonlinear_arith)
        requires
            p == n * i,
            q == n * j,
    ;
    assert(p - q == (i - j) * n + 0) by (nonlinear_arith)
        requires
            p == n * i,
            q == n * j,
    ;
    lemma_fundamental_div_mod_converse(p + q, n, i + j, 0);
    lemma_fundamental_div_mod_converse(p - q, n, i - j, 0);
}

/// A product with a multiple is one.
proof fn lemma_multiple_product(k: int, n: int)
    requires
        n > 0,
    ensures
        (k * n) % n == 0,
{
    lemma_fundamental_div_mod_converse(k * n, n, k, 0);
}

proof fn lemma_start(a: int, n: int)
    requires
        a >= 0,
        n > 1,
    ensures
        (a * 1 - a % n) % n == 0,
        (a * 0 - n) % n == 0,
        common(a % n, n, a, n),
{
    lemma_fundamental_div_mod(a, n);
    let q = a / n;
    assert(a * 1 - a % n == q * n) by (nonlinear_arith)
        requires
            a == n * q + a % n,
    ;
    lemma_multiple_product(q, n);
    assert(a * 0 - n == (-1) * n) by (nonlinear_arith);
    lemma_multiple_product(-1, n);
    assert forall|d: int|
        #![trigger ((a % n) % d), (n % d)]
        d > 0 && (a % n) % d == 0 && n % d == 0 implies a % d == 0 && n % d == 0 by {
        lemma_fundamental_div_mod(n, d);
        let m = n / d;
        assert(q * n == (q * m) * d) by (nonlinear_arith)
            requires
                n == d * m,
        ;
        lemma_multiple_product(q * m, d);
        lemma_multiple_sum(q * n, a % n, d);
        assert(q * n + a % n == a) by (nonlinear_arith)
            requires
                a == n * q + a % n,
        ;
    }
}

proof fn lemma_common_half(x: int, y: int, a: int, n: int)
    requires
        x % 2 == 0,
        common(x, y, a, n),
    ensures
        common(x / 2, y, a, n),
{
    let h = x / 2;
    assert forall|d: int|
        #![trigger (h % d), (y % d)]
        d > 0 && h % d == 0 && y % d == 0 implies a % d == 0 && n % d == 0 by {
        lemma_multiple_sum(h, h, d);
        assert(x == h + h);
        assert(x % d == 0);
    }
}

proof fn lemma_common_minus(x: int, y: int, a: int, n: int)
    requires
        common(x, y, a, n) || common(y, x, a, n),
    ensures
        common(x - y, y, a, n),
{
    let h = x - y;
    assert forall|d: int|
        #![trigger (h % d), (y % d)]
        d > 0 && h % d == 0 && y % d == 0 implies a % d == 0 && n % d == 0 by {
        lemma_multiple_sum(h, y, d);
        assert(h + y == x);
        assert(x % d == 0);
    }
}

/// Twice something is a multiple of an odd number only when it is one itself.
proof fn lemma_odd_cancels(z: int, n: int)
    requires
        n > 0,
        n % 2 == 1,
        (2 * z) % n == 0,
    ensures
        z % n == 0,
{
    lemma_fundamental_div_mod(z, n);
    lemma_fundamental_div_mod(2 * z, n);
    let q = z / n;
    let r = z % n;
    let k = (2 * z) / n;
    let t = k - 2 * q;
    assert(2 * r == n * t) by (nonlinear_arith)
        requires
            2 * z == n * k,
            z == n * q + r,
            t == k - 2 * q,
    ;
    assert(0 <= r < n);
    assert(t == 0 || t == 1) by (nonlinear_arith)
        requires
            2 * r == n * t,
            0 <= r < n,
            n > 0,
    ;
    if t == 1 {
        assert(n * t == n) by (nonlinear_arith)
            requires
                t == 1,
        ;
    } else {
        assert(n * t == 0) by (nonlinear_arith)
            requires
                t == 0,
        ;
    }
}

proof fn lemma_half(a: int, u: int, x: int, n: int)
    requires
        0 <= u < n,
        x >= 0,
        x % 2 == 0,
        n > 1,
        n % 2 == 1,
        (a * u - x) % n == 0,
    ensures
        (a * half_mod(u as nat, n as nat) - x / 2) % n == 0,
{
    let h = half_mod(u as nat, n as nat) as int;
    let z = a * h - x / 2;
    if u % 2 == 0 {
        assert(2 * h == u);
        assert(2 * z == a * u - x) by (nonlinear_arith)
            requires
                z == a * h - x / 2,
                2 * h == u,
                x % 2 == 0,
        ;
    } else {
        assert(2 * h == u + n);
        assert(2 * z == (a * u - x) + a * n) by (nonlinear_arith)
            requires
                z == a * h - x / 2,
                2 * h == u + n,
                x % 2 == 0,
        ;
        lemma_multiple_product(a, n);
        lemma_multiple_sum(a * u - x, a * n, n);
    }
    lemma_odd_cancels(z, n);
}

proof fn lemma_minus(a: int, u: int, v: int, x: int, y: int, n: int)
    requires
        0 <= u < n,
        0 <= v < n,
        n > 1,
        (a * u - x) % n == 0,
        (a * v - y) % n == 0,
    ensures
        (a * minus_mod(u as nat, v as nat, n as nat) - (x - y)) % n == 0,
        minus_mod(u as nat, v as nat, n as nat) < n,
{
    let t = u + (n - v);
    let w = minus_mod(u as nat, v as nat, n as nat) as int;
    lemma_fundamental_div_mod(t, n);
    let q = t / n;
    assert(w == t % n);
    lemma_multiple_sum(a * u - x, a * v - y, n);
    lemma_multiple_product(a * (1 - q), n);
    let p = (a * u - x) - (a * v - y);
    lemma_multiple_sum(p, (a * (1 - q)) * n, n);
    assert(a * w - (x - y) == p + (a * (1 - q)) * n) by (nonlinear_arith)
        requires
            p == (a * u - x) - (a * v - y),
            t == u + (n - v),
            t == n * q + w,
    ;
}

proof fn lemma_remainder_one(z: int, n: int)
    requires
        n > 1,
        (z - 1) % n == 0,
    ensures
        z % n == 1,
{
    lemma_fundamental_div_mod(z - 1, n);
    let q = (z - 1) / n;
    assert(z == q * n + 1) by (nonlinear_arith)
        requires
            z - 1 == n * q,
    ;
    lemma_fundamental_div_mod_converse(z, n, q, 1);
}

/// There is but one inverse.
pub proof fn lemma_inverse(a: nat, r: nat, m: nat)
    requires
        m > 1,
        is_inverse(a, r, m),
    ensures
        inverse(a, m) == r,
{
    reveal(inverse);
    let s = choose|s: nat| is_inverse(a, s, m);
    assert(is_inverse(a, s, m));
    let n = m as int;
    let x = r as int;
    let y = s as int;
    let p = (a * r) as int / n;
    let q = (a * s) as int / n;
    lemma_fundamental_div_mod((a * r) as int, n);
    lemma_fundamental_div_mod((a * s) as int, n);
    let k = p * y - q * x;
    let aa = a as int;
    assert((aa * x) * y == (aa * y) * x) by (nonlinear_arith);
    assert((n * p + 1) * y == n * (p * y) + y) by (nonlinear_arith);
    assert((n * q + 1) * x == n * (q * x) + x) by (nonlinear_arith);
    assert(n * k == n * (p * y) - n * (q * x)) by (nonlinear_arith)
        requires
            k == p * y - q * x,
    ;
    assert(x - y == n * k);
    assert(k == 0) by (nonlinear_arith)
        requires
            x - y == n * k,
            0 <= x < n,
            0 <= y < n,
    ;
}

/// A common divisor leaves no inverse.
proof fn lemma_no_inverse(a: nat, m: nat, g: nat)
    requires
        g > 1,
        m > 1,
        a as int % g as int == 0,
        m as int % g as int == 0,
    ensures
        inverse(a, m) == 0,
{
    reveal(inverse);
    if exists|r: nat| is_inverse(a, r, m) {
        let r = choose|r: nat| is_inverse(a, r, m);
        let q = (a * r) as int / m as int;
        lemma_fundamental_div_mod((a * r) as int, m as int);
        lemma_fundamental_div_mod(a as int, g as int);
        lemma_fundamental_div_mod(m as int, g as int);
        let i = a as int / g as int;
        let j = m as int / g as int;
        let gg = g as int;
        let t = i * r - j * q;
        let (aa, mm, rr) = (a as int, m as int, r as int);
        assert(gg * t == 1) by (nonlinear_arith)
            requires
                aa * rr == mm * q + 1,
                aa == gg * i,
                mm == gg * j,
                t == i * rr - j * q,
        ;
        assert(false) by (nonlinear_arith)
            requires
                gg * t == 1,
                gg > 1,
        ;
    }
}

/// One squared is one, modulo anything.
proof fn lemma_one_squared(m: nat)
    requires
        m > 0,
    ensures
        ((1nat % m) * (1nat % m)) % m == 1nat % m,
{
    if m == 1 {
    } else {
        lemma_small_mod(1, m);
    }
}

/// Two to the power of `n`.
pub open spec fn two_to(n: nat) -> nat
    decreases n,
{
    if n == 0 {
        1
    } else {
        2 * two_to((n - 1) as nat)
    }
}

/// The number that bits stand for, the lowest first.
pub open spec fn bits_value(s: Seq<bool>) -> nat
    decreases s.len(),
{
    if s.len() == 0 {
        0
    } else {
        bits_value(s.drop_last()) + (if s.last() {
            two_to((s.len() - 1) as nat)
        } else {
            0
        })
    }
}

/// The number that bits stand for, the highest first.
pub open spec fn high_value(s: Seq<bool>) -> nat
    decreases s.len(),
{
    if s.len() == 0 {
        0
    } else {
        2 * high_value(s.drop_last()) + (if s.last() {
            1nat
        } else {
            0
        })
    }
}

proof fn lemma_bits_push(s: Seq<bool>, b: bool)
    ensures
        bits_value(s.push(b)) == bits_value(s) + (if b {
            two_to(s.len())
        } else {
            0
        }),
{
    assert(s.push(b).drop_last() =~= s);
}

/// A bit put in front of the highest counts for its place.
proof fn lemma_high_front(b: bool, s: Seq<bool>)
    ensures
        high_value(seq![b] + s) == high_value(s) + (if b {
            two_to(s.len())
        } else {
            0
        }),
    decreases s.len(),
{
    let t = seq![b] + s;
    if s.len() == 0 {
        assert(t.drop_last() =~= Seq::<bool>::empty());
        assert(high_value(t.drop_last()) == 0);
        assert(t.last() == b);
        assert(two_to(0) == 1);
    } else {
        assert(t.drop_last() =~= seq![b] + s.drop_last());
        assert(t.last() == s.last());
        lemma_high_front(b, s.drop_last());
    }
}

proof fn lemma_reversed(s: Seq<bool>)
    ensures
        high_value(s.reverse()) == bits_value(s),
    decreases s.len(),
{
    if s.len() == 0 {
        assert(s.reverse() =~= Seq::<bool>::empty());
    } else {
        lemma_reversed(s.drop_last());
        lemma_high_front(s.last(), s.drop_last().reverse());
        assert(s.reverse() =~= seq![s.last()] + s.drop_last().reverse());
    }
}

/// Multiply without a product in one piece, for numbers of any length.
fn slow_product(a: &[u32], b: &[u32]) -> (r: Vec<u32>)
    ensures
        limbs_value(r@) == limbs_value(a@) * limbs_value(b@),
        r@.len() == 0 || r@.last() != 0,
{
    let mut out: Vec<u32> = Vec::new();
    let mut i: usize = a.len();
    assert(a@.skip(i as int) =~= Seq::<u32>::empty());
    assert(0 * limbs_value(b@) == 0) by (nonlinear_arith);
    while i > 0
        invariant
            i <= a@.len(),
            out@.len() == 0 || out@.last() != 0,
            limbs_value(out@) == limbs_value(a@.skip(i as int)) * limbs_value(b@),
        decreases i,
    {
        i = i - 1;
        let x: u32 = a[i];
        let mut row: Vec<u32> = Vec::new();
        row.extend_from_slice(b);
        assert(row@ =~= b@);
        scale(&mut row, x, 0);
        let ghost before = out@;
        out.insert(0, 0);
        proof {
            assert(out@ =~= seq![0u32] + before);
            lemma_front(before, 0);
            assert(a@.skip(i as int) =~= seq![x] + a@.skip(i + 1));
            lemma_front(a@.skip(i + 1), x);
            let u = limbs_value(a@.skip(i + 1)) as int;
            let v = limbs_value(b@) as int;
            let xx = x as int;
            assert((xx + 0x1_0000_0000 * u) * v == v * xx + 0x1_0000_0000 * (u * v))
                by (nonlinear_arith);
        }
        out = sum(out.as_slice(), row.as_slice());
    }
    assert(a@.skip(0) =~= a@);
    out
}

/// A number is written in as many octets as it is given.
pub proof fn lemma_octets_len(n: nat, len: nat)
    ensures
        octets_of(n, len).len() == len,
    decreases len,
{
    if len > 0 {
        lemma_octets_len(n / 256, (len - 1) as nat);
    }
}

/// What `n` octets count up to.
pub open spec fn octet_weight(n: nat) -> nat
    decreases n,
{
    if n == 0 {
        1
    } else {
        256 * octet_weight((n - 1) as nat)
    }
}

/// Octets stand for a number below what they count up to.
pub proof fn lemma_number_bound(s: Seq<u8>)
    ensures
        number_of(s) < octet_weight(s.len()),
    decreases s.len(),
{
    if s.len() > 0 {
        lemma_number_bound(s.drop_last());
    }
}

/// A number that fits its octets is read back from them.
pub proof fn lemma_octets_read_back(n: nat, len: nat)
    requires
        n < octet_weight(len),
    ensures
        number_of(octets_of(n, len)) == n,
    decreases len,
{
    if len > 0 {
        lemma_octets_read_back(n / 256, (len - 1) as nat);
        assert(octets_of(n, len).drop_last() =~= octets_of(n / 256, (len - 1) as nat));
    }
}

/// Octets behind octets count up to the product.
pub proof fn lemma_octet_weights(a: nat, b: nat)
    ensures
        octet_weight(a) * octet_weight(b) == octet_weight(a + b),
    decreases a,
{
    if a > 0 {
        lemma_octet_weights((a - 1) as nat, b);
        let x = octet_weight((a - 1) as nat);
        let y = octet_weight(b);
        assert(256 * x * y == 256 * (x * y)) by (nonlinear_arith);
    } else {
        assert(1 * octet_weight(b) == octet_weight(b));
    }
}

/// A number fits the octets it takes.
pub proof fn lemma_octet_length_fits(n: nat)
    ensures
        n < octet_weight(octet_length(n)),
    decreases n,
{
    if n == 0 {
        assert(octet_weight(0) == 1);
    } else if n < 256 {
        let s = seq![n as u8];
        assert(s.drop_last() =~= Seq::<u8>::empty());
        assert(number_of(Seq::<u8>::empty()) == 0);
        assert(number_of(s) == n);
        lemma_octet_length(s);
        assert(octet_length(n) == 1);
        assert(octet_weight(1) == 256 * octet_weight(0));
    } else {
        lemma_octet_length_fits(n / 256);
        assert(n / 2 / 2 == n / 4 && n / 4 / 2 == n / 8 && n / 8 / 2 == n / 16 && n / 16 / 2 == n
            / 32 && n / 32 / 2 == n / 64 && n / 64 / 2 == n / 128 && n / 128 / 2 == n / 256);
        assert(bit_length(n) == 1 + bit_length(n / 2));
        assert(bit_length(n / 2) == 1 + bit_length(n / 4));
        assert(bit_length(n / 4) == 1 + bit_length(n / 8));
        assert(bit_length(n / 8) == 1 + bit_length(n / 16));
        assert(bit_length(n / 16) == 1 + bit_length(n / 32));
        assert(bit_length(n / 32) == 1 + bit_length(n / 64));
        assert(bit_length(n / 64) == 1 + bit_length(n / 128));
        assert(bit_length(n / 128) == 1 + bit_length(n / 256));
        assert(octet_length(n) == 1 + octet_length(n / 256));
        assert(octet_weight(octet_length(n)) == 256 * octet_weight(octet_length(n / 256)));
    }
}

} // verus!
