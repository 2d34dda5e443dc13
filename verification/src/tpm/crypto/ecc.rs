//! Elliptic curve cryptography.

use vstd::prelude::*;

use super::bn::{
    high_value, inverse, lemma_number_bound, lemma_octet_length, lemma_octets_read_back, minus_mod,
    number_of, octet_length, octet_weight, octets_of, BigNum,
};
use super::curves::{
    P256_B, P256_N, P256_P, P256_X, P256_Y, P384_B, P384_N, P384_P, P384_X, P384_Y, P521_B,
    P521_N, P521_P, P521_X, P521_Y,
};
use super::hash::{digest, hash_of, supported};
use super::rand::{draw, Rng, RngModel};
use crate::tpm::constants::{curve, rc};
use crate::tpm::error::{TpmRc, TpmResult};
use crate::tpm::structures::keys::known_curve;
use crate::util::bytes::sub_vec;

verus! {

/// How often a scalar is drawn before the generator is given up on.
pub const DRAWS: usize = 64;

/// A curve `y^2 = x^3 + ax + b` over the field of `p` elements, with a
/// generator of order `n`.
pub struct CurveModel {
    pub p: nat,
    pub a: nat,
    pub b: nat,
    pub gx: nat,
    pub gy: nat,
    pub n: nat,
    /// How many octets a coordinate takes.
    pub size: nat,
    /// How many bits the order takes.
    pub bits: nat,
}

/// The curve of that identifier.
#[verifier::opaque]
pub open spec fn curve_of(id: u16) -> CurveModel {
    if id == curve::NIST_P256 {
        CurveModel {
            p: number_of(P256_P@),
            a: (number_of(P256_P@) - 3) as nat,
            b: number_of(P256_B@),
            gx: number_of(P256_X@),
            gy: number_of(P256_Y@),
            n: number_of(P256_N@),
            size: 32,
            bits: 256,
        }
    } else if id == curve::NIST_P384 {
        CurveModel {
            p: number_of(P384_P@),
            a: (number_of(P384_P@) - 3) as nat,
            b: number_of(P384_B@),
            gx: number_of(P384_X@),
            gy: number_of(P384_Y@),
            n: number_of(P384_N@),
            size: 48,
            bits: 384,
        }
    } else {
        CurveModel {
            p: number_of(P521_P@),
            a: (number_of(P521_P@) - 3) as nat,
            b: number_of(P521_B@),
            gx: number_of(P521_X@),
            gy: number_of(P521_Y@),
            n: number_of(P521_N@),
            size: 66,
            bits: 521,
        }
    }
}

/// True when the coordinates satisfy the equation of the curve.
pub open spec fn on_curve(c: CurveModel, x: nat, y: nat) -> bool {
    x < c.p && y < c.p && (y * y) % c.p == (x * x * x + c.a * x + c.b) % c.p
}

/// Where a line of slope `l` through two points leads, mirrored.
pub open spec fn third(c: CurveModel, l: nat, x1: nat, y1: nat, x2: nat) -> (nat, nat) {
    let x3 = minus_mod(minus_mod((l * l) % c.p, x1, c.p), x2, c.p);
    (x3, minus_mod((l * minus_mod(x1, x3, c.p)) % c.p, y1, c.p))
}

/// A point added to itself.
pub open spec fn doubled(c: CurveModel, q: Option<(nat, nat)>) -> Option<(nat, nat)> {
    match q {
        None => None,
        Some((x, y)) => if y == 0 {
            None
        } else {
            let num = (3 * (x * x) + c.a) % c.p;
            let l = (num * inverse((2 * y) % c.p, c.p)) % c.p;
            Some(third(c, l, x, y, x))
        },
    }
}

/// The sum of two points. No coordinates stand for the point at infinity.
pub open spec fn added(
    c: CurveModel,
    q: Option<(nat, nat)>,
    r: Option<(nat, nat)>,
) -> Option<(nat, nat)> {
    match (q, r) {
        (None, _) => r,
        (_, None) => q,
        (Some((x1, y1)), Some((x2, y2))) => if x1 == x2 {
            if y1 == y2 {
                doubled(c, q)
            } else {
                None
            }
        } else {
            let l = (minus_mod(y2, y1, c.p) * inverse(minus_mod(x2, x1, c.p), c.p)) % c.p;
            Some(third(c, l, x1, y1, x2))
        },
    }
}

/// A point added to itself `k` times.
pub open spec fn multiplied(c: CurveModel, k: nat, q: Option<(nat, nat)>) -> Option<(nat, nat)>
    decreases k,
{
    if k == 0 {
        None
    } else {
        let twice = doubled(c, multiplied(c, k / 2, q));
        if k % 2 == 1 {
            added(c, twice, q)
        } else {
            twice
        }
    }
}

/// The generator added to itself `k` times.
pub open spec fn base_multiplied(c: CurveModel, k: nat) -> Option<(nat, nat)> {
    multiplied(c, k, Some((c.gx, c.gy)))
}

/// Octets with the bits of the first one that a scalar cannot have taken away.
pub open spec fn trimmed(c: CurveModel, s: Seq<u8>) -> Seq<u8> {
    if c.bits == 521 && s.len() > 0 {
        s.update(0, s[0] % 2)
    } else {
        s
    }
}

/// A scalar drawn by trying until one is in range, and what the generator is
/// left with.
pub open spec fn scalar_drawn(c: CurveModel, m: RngModel, tries: nat) -> (TpmResult<nat>, RngModel)
    decreases tries,
{
    if tries == 0 {
        (Err(TpmRc(rc::NO_RESULT)), m)
    } else {
        match draw(m, c.size) {
            (Err(e), left) => (Err(e), left),
            (Ok(s), left) => {
                let k = number_of(trimmed(c, s));
                if 0 < k < c.n {
                    (Ok(k), left)
                } else {
                    scalar_drawn(c, left, (tries - 1) as nat)
                }
            },
        }
    }
}

/// How many octets a scalar with 64 extra bits is drawn from.
pub open spec fn extra_octets(c: CurveModel) -> nat {
    if c.bits == 521 {
        74
    } else {
        c.size + 8
    }
}

/// A scalar drawn with 64 extra bits, so that no octet is rejected.
pub open spec fn extra_drawn(c: CurveModel, m: RngModel) -> (TpmResult<nat>, RngModel) {
    match draw(m, extra_octets(c)) {
        (Err(e), left) => (Err(e), left),
        (Ok(s), left) => (
            Ok(number_of(trimmed(c, s)) % ((c.n - 1) as nat) + 1),
            left,
        ),
    }
}

/// The number a digest stands for in a signature: the leftmost octets that the
/// order has room for.
pub open spec fn digest_number(c: CurveModel, d: Seq<u8>) -> nat {
    if d.len() > c.size {
        number_of(d.take(c.size as int))
    } else {
        number_of(d)
    }
}

/// The ECDSA signature of `e` with the private key `d` and the nonce `k`.
pub open spec fn ecdsa_of(c: CurveModel, d: nat, e: nat, k: nat) -> Option<(nat, nat)> {
    match base_multiplied(c, k) {
        None => None,
        Some((x, _)) => {
            let r = x % c.n;
            let s = (inverse(k, c.n) * ((e + r * d) % c.n)) % c.n;
            if r == 0 || s == 0 {
                None
            } else {
                Some((r, s))
            }
        },
    }
}

/// True when `(r, s)` is an ECDSA signature of `e` under the public key.
pub open spec fn ecdsa_verifies(c: CurveModel, x: nat, y: nat, e: nat, r: nat, s: nat) -> bool {
    &&& 0 < r < c.n
    &&& 0 < s < c.n
    &&& on_curve(c, x, y)
    &&& match added(
        c,
        base_multiplied(c, (e * inverse(s, c.n)) % c.n),
        multiplied(c, (r * inverse(s, c.n)) % c.n, Some((x, y))),
    ) {
        None => false,
        Some((v, _)) => v % c.n == r,
    }
}

/// What a Schnorr signature of `d` commits to.
pub open spec fn schnorr_challenge(c: CurveModel, h: u16, x: nat, d: Seq<u8>) -> nat {
    digest_number(c, hash_of(h, octets_of(x, c.size) + d)) % c.n
}

/// The Schnorr signature of a digest with the private key `d` and the nonce
/// `k`.
pub open spec fn schnorr_of(c: CurveModel, d: nat, h: u16, m: Seq<u8>, k: nat) -> Option<
    (nat, nat),
> {
    match base_multiplied(c, k) {
        None => None,
        Some((x, _)) => {
            let r = schnorr_challenge(c, h, x, m);
            let s = (k + r * d) % c.n;
            if r == 0 || s == 0 {
                None
            } else {
                Some((r, s))
            }
        },
    }
}

/// True when `(r, s)` is a Schnorr signature of a digest under the public key.
pub open spec fn schnorr_verifies(
    c: CurveModel,
    x: nat,
    y: nat,
    h: u16,
    m: Seq<u8>,
    r: nat,
    s: nat,
) -> bool {
    &&& 0 < r < c.n
    &&& 0 < s < c.n
    &&& on_curve(c, x, y)
    &&& match added(
        c,
        base_multiplied(c, s),
        multiplied(c, (c.n - r) as nat, Some((x, y))),
    ) {
        None => false,
        Some((v, _)) => schnorr_challenge(c, h, v, m) == r,
    }
}

/// What is signed, and how.
pub enum Signing {
    Ecdsa { e: nat },
    Schnorr { hash_alg: u16, digest: Seq<u8> },
}

/// The signature with the nonce `k`.
pub open spec fn signature_of(c: CurveModel, d: nat, what: Signing, k: nat) -> Option<(nat, nat)> {
    match what {
        Signing::Ecdsa { e } => ecdsa_of(c, d, e, k),
        Signing::Schnorr { hash_alg, digest } => schnorr_of(c, d, hash_alg, digest, k),
    }
}

/// A signature with a nonce drawn anew until it has no part of zero, and what
/// the generator is left with.
pub open spec fn signed(
    c: CurveModel,
    d: nat,
    what: Signing,
    m: RngModel,
    tries: nat,
) -> (TpmResult<(nat, nat)>, RngModel)
    decreases tries,
{
    if tries == 0 {
        (Err(TpmRc(rc::NO_RESULT)), m)
    } else {
        match scalar_drawn(c, m, DRAWS as nat) {
            (Err(e), left) => (Err(e), left),
            (Ok(k), left) => match signature_of(c, d, what, k) {
                Some(rs) => (Ok(rs), left),
                None => signed(c, d, what, left, (tries - 1) as nat),
            },
        }
    }
}

/// The number is at least its last octet, and as even as that.
proof fn lemma_last(s: Seq<u8>)
    requires
        s.len() > 0,
    ensures
        number_of(s) >= s.last(),
        number_of(s) % 2 == (s.last() % 2) as nat,
{
}

/// The field and the order are odd and larger than three.
pub proof fn lemma_curve(id: u16)
    ensures
        curve_of(id).p > 3,
        curve_of(id).p % 2 == 1,
        curve_of(id).n > 3,
        curve_of(id).n % 2 == 1,
        curve_of(id).a == curve_of(id).p - 3,
        curve_of(id).size == 32 || curve_of(id).size == 48 || curve_of(id).size == 66,
        curve_of(id).bits == 521 <==> curve_of(id).size == 66,
{
    reveal(curve_of);
    lemma_last(P256_P@);
    lemma_last(P384_P@);
    lemma_last(P521_P@);
    lemma_last(P256_N@);
    lemma_last(P384_N@);
    lemma_last(P521_N@);
}

/// A point, or the point at infinity.
#[derive(Debug)]
pub struct Point {
    infinite: bool,
    x: BigNum,
    y: BigNum,
}

impl View for Point {
    type V = Option<(nat, nat)>;

    closed spec fn view(&self) -> Option<(nat, nat)> {
        if self.infinite {
            None
        } else {
            Some((self.x@, self.y@))
        }
    }
}

/// True when the coordinates are elements of the field.
pub open spec fn in_field(c: CurveModel, q: Option<(nat, nat)>) -> bool {
    q matches Some((x, y)) ==> x < c.p && y < c.p
}

impl Point {
    /// The point at infinity.
    fn infinity() -> (r: Point)
        ensures
            r@ is None,
    {
        Point { infinite: true, x: BigNum::zero(), y: BigNum::zero() }
    }

    /// A point of those coordinates.
    pub fn new(x: BigNum, y: BigNum) -> (r: Point)
        ensures
            r@ == Some((x@, y@)),
    {
        Point { infinite: false, x, y }
    }

    /// True for the point at infinity.
    pub fn is_infinite(&self) -> (r: bool)
        ensures
            r == (self@ is None),
    {
        self.infinite
    }

    /// The first coordinate.
    pub fn x(&self) -> (r: &BigNum)
        requires
            self@ is Some,
        ensures
            r@ == (self@->0).0,
    {
        &self.x
    }

    /// The second coordinate.
    pub fn y(&self) -> (r: &BigNum)
        requires
            self@ is Some,
        ensures
            r@ == (self@->0).1,
    {
        &self.y
    }

    /// A copy.
    pub fn copy(&self) -> (r: Point)
        ensures
            r@ == self@,
    {
        Point { infinite: self.infinite, x: self.x.copy(), y: self.y.copy() }
    }
}

/// A curve.
#[derive(Debug)]
pub struct Curve {
    id: u16,
    p: BigNum,
    a: BigNum,
    b: BigNum,
    gx: BigNum,
    gy: BigNum,
    n: BigNum,
    size: usize,
    bits: usize,
}

impl Curve {
    /// The identifier.
    pub closed spec fn spec_id(&self) -> u16 {
        self.id
    }

    /// The parameters.
    pub open spec fn model(&self) -> CurveModel {
        curve_of(self.spec_id())
    }

    /// True when the numbers are those of the curve.
    pub closed spec fn wf(&self) -> bool {
        &&& known_curve(self.id)
        &&& self.p@ == curve_of(self.id).p
        &&& self.a@ == curve_of(self.id).a
        &&& self.b@ == curve_of(self.id).b
        &&& self.gx@ == curve_of(self.id).gx
        &&& self.gy@ == curve_of(self.id).gy
        &&& self.n@ == curve_of(self.id).n
        &&& self.size == curve_of(self.id).size
        &&& self.bits == curve_of(self.id).bits
    }

    /// The curve of that identifier.
    pub fn new(id: u16) -> (r: TpmResult<Curve>)
        ensures
            r is Ok <==> known_curve(id),
            r matches Ok(c) ==> c.wf() && c.spec_id() == id,
            r is Err ==> r->Err_0 == TpmRc(rc::CURVE),
    {
        proof {
            lemma_curve(id);
            reveal(curve_of);
        }
        if id == curve::NIST_P256 {
            let p: BigNum = BigNum::from_bytes(P256_P.as_slice());
            let a: BigNum = p.sub_word(3);
            return Ok(
                Curve {
                    id,
                    p,
                    a,
                    b: BigNum::from_bytes(P256_B.as_slice()),
                    gx: BigNum::from_bytes(P256_X.as_slice()),
                    gy: BigNum::from_bytes(P256_Y.as_slice()),
                    n: BigNum::from_bytes(P256_N.as_slice()),
                    size: 32,
                    bits: 256,
                },
            );
        }
        if id == curve::NIST_P384 {
            let p: BigNum = BigNum::from_bytes(P384_P.as_slice());
            let a: BigNum = p.sub_word(3);
            return Ok(
                Curve {
                    id,
                    p,
                    a,
                    b: BigNum::from_bytes(P384_B.as_slice()),
                    gx: BigNum::from_bytes(P384_X.as_slice()),
                    gy: BigNum::from_bytes(P384_Y.as_slice()),
                    n: BigNum::from_bytes(P384_N.as_slice()),
                    size: 48,
                    bits: 384,
                },
            );
        }
        if id == curve::NIST_P521 {
            let p: BigNum = BigNum::from_bytes(P521_P.as_slice());
            let a: BigNum = p.sub_word(3);
            return Ok(
                Curve {
                    id,
                    p,
                    a,
                    b: BigNum::from_bytes(P521_B.as_slice()),
                    gx: BigNum::from_bytes(P521_X.as_slice()),
                    gy: BigNum::from_bytes(P521_Y.as_slice()),
                    n: BigNum::from_bytes(P521_N.as_slice()),
                    size: 66,
                    bits: 521,
                },
            );
        }
        Err(TpmRc(rc::CURVE))
    }

    /// How many octets a coordinate takes.
    pub fn coordinate_size(&self) -> (r: usize)
        requires
            self.wf(),
        ensures
            r == self.model().size,
            r == 32 || r == 48 || r == 66,
    {
        proof {
            lemma_curve(self.id);
        }
        self.size
    }

    /// How many bits the order takes.
    pub fn bits(&self) -> (r: usize)
        requires
            self.wf(),
        ensures
            r == self.model().bits,
            r == 256 || r == 384 || r == 521,
    {
        proof {
            reveal(curve_of);
        }
        self.bits
    }

    /// The order of the generator.
    pub fn order(&self) -> (r: BigNum)
        requires
            self.wf(),
        ensures
            r@ == self.model().n,
    {
        self.n.copy()
    }

    /// The field and the two coefficients.
    pub fn parameters(&self) -> (r: (BigNum, BigNum, BigNum))
        requires
            self.wf(),
        ensures
            r.0@ == self.model().p,
            r.1@ == self.model().a,
            r.2@ == self.model().b,
    {
        (self.p.copy(), self.a.copy(), self.b.copy())
    }

    /// The coordinates of the generator.
    pub fn generator_coordinates(&self) -> (r: (Vec<u8>, Vec<u8>))
        requires
            self.wf(),
        ensures
            r.0@ == octets_of(self.model().gx, self.model().size),
            r.1@ == octets_of(self.model().gy, self.model().size),
            r.0@.len() == self.model().size,
            r.1@.len() == self.model().size,
    {
        (self.gx.to_bytes_padded(self.size), self.gy.to_bytes_padded(self.size))
    }

    /// True when the coordinates satisfy the equation of the curve.
    pub fn on_curve(&self, x: &BigNum, y: &BigNum) -> (r: bool)
        requires
            self.wf(),
        ensures
            r == on_curve(self.model(), x@, y@),
    {
        proof {
            lemma_curve(self.id);
        }
        if !x.less(&self.p) || !y.less(&self.p) {
            return false;
        }
        let left: BigNum = y.times_mod(y, &self.p);
        let right: BigNum = x.times(x).times(x).plus(&self.a.times(x)).plus(&self.b).modulo(
            &self.p,
        );
        left.same(&right)
    }

    /// Where a line leads, mirrored.
    fn third(&self, l: &BigNum, x1: &BigNum, y1: &BigNum, x2: &BigNum) -> (r: Point)
        requires
            self.wf(),
            x1@ < self.model().p,
            y1@ < self.model().p,
            x2@ < self.model().p,
        ensures
            r@ == Some(third(self.model(), l@, x1@, y1@, x2@)),
            in_field(self.model(), r@),
    {
        proof {
            lemma_curve(self.id);
        }
        let x3: BigNum = l.times_mod(l, &self.p).minus_mod(x1, &self.p).minus_mod(x2, &self.p);
        let y3: BigNum = l.times_mod(&x1.minus_mod(&x3, &self.p), &self.p).minus_mod(
            y1,
            &self.p,
        );
        Point::new(x3, y3)
    }

    /// A point added to itself.
    fn double(&self, q: &Point) -> (r: Point)
        requires
            self.wf(),
            in_field(self.model(), q@),
        ensures
            r@ == doubled(self.model(), q@),
            in_field(self.model(), r@),
    {
        proof {
            lemma_curve(self.id);
        }
        if q.infinite || q.y.is_zero() {
            return Point::infinity();
        }
        let xx: BigNum = q.x.times(&q.x);
        let num: BigNum = xx.plus(&xx).plus(&xx).plus(&self.a).modulo(&self.p);
        let den: BigNum = q.y.plus(&q.y).modulo(&self.p);
        let l: BigNum = num.times_mod(&den.inverse_mod(&self.p), &self.p);
        assert(xx@ + xx@ + xx@ == 3 * (q.x@ * q.x@));
        self.third(&l, &q.x, &q.y, &q.x)
    }

    /// The sum of two points.
    pub fn add(&self, q: &Point, r: &Point) -> (out: Point)
        requires
            self.wf(),
            in_field(self.model(), q@),
            in_field(self.model(), r@),
        ensures
            out@ == added(self.model(), q@, r@),
            in_field(self.model(), out@),
    {
        proof {
            lemma_curve(self.id);
        }
        if q.infinite {
            return r.copy();
        }
        if r.infinite {
            return q.copy();
        }
        if q.x.same(&r.x) {
            if q.y.same(&r.y) {
                return self.double(q);
            }
            return Point::infinity();
        }
        let num: BigNum = r.y.minus_mod(&q.y, &self.p);
        let den: BigNum = r.x.minus_mod(&q.x, &self.p);
        let l: BigNum = num.times_mod(&den.inverse_mod(&self.p), &self.p);
        self.third(&l, &q.x, &q.y, &r.x)
    }

    /// A point added to itself `k` times.
    pub fn multiply(&self, k: &BigNum, q: &Point) -> (r: Point)
        requires
            self.wf(),
            in_field(self.model(), q@),
        ensures
            r@ == multiplied(self.model(), k@, q@),
            in_field(self.model(), r@),
    {
        let bits: Vec<bool> = k.high_bits();
        let mut acc: Point = Point::infinity();
        let mut i: usize = 0;
        assert(bits@.take(0) =~= Seq::<bool>::empty());
        while i < bits.len()
            invariant
                i <= bits@.len(),
                self.wf(),
                in_field(self.model(), q@),
                in_field(self.model(), acc@),
                acc@ == multiplied(self.model(), high_value(bits@.take(i as int)), q@),
            decreases bits@.len() - i,
        {
            proof {
                let t = bits@.take(i + 1);
                assert(t.drop_last() =~= bits@.take(i as int));
                assert(t.last() == bits@[i as int]);
            }
            let twice: Point = self.double(&acc);
            if bits[i] {
                acc = self.add(&twice, q);
            } else {
                acc = twice;
            }
            i = i + 1;
        }
        assert(bits@.take(i as int) =~= bits@);
        acc
    }

    /// The generator added to itself `k` times.
    pub fn multiply_base(&self, k: &BigNum) -> (r: Point)
        requires
            self.wf(),
        ensures
            r@ == base_multiplied(self.model(), k@),
            in_field(self.model(), r@),
    {
        proof {
            lemma_generator(self.id);
        }
        self.multiply(k, &Point::new(self.gx.copy(), self.gy.copy()))
    }

    /// The bits of the first octet that a scalar cannot have taken away.
    fn trim(&self, octets: &mut Vec<u8>)
        requires
            self.wf(),
        ensures
            final(octets)@ == trimmed(self.model(), old(octets)@),
    {
        if self.bits == 521 && octets.len() > 0 {
            let first: u8 = octets[0] % 2;
            octets.set(0, first);
        }
        assert(octets@ =~= trimmed(self.model(), old(octets)@));
    }
}

/// The coordinates of the generator are elements of the field.
proof fn lemma_generator(id: u16)
    ensures
        curve_of(id).gx < curve_of(id).p,
        curve_of(id).gy < curve_of(id).p,
{
    reveal(curve_of);
    lemma_first_differs(P256_X@, P256_P@);
    lemma_first_differs(P256_Y@, P256_P@);
    lemma_first_differs(P384_X@, P384_P@);
    lemma_first_differs(P384_Y@, P384_P@);
    lemma_first_differs(P521_X@, P521_P@);
    lemma_second_differs(P521_Y@, P521_P@);
}

/// The first octet counts for its place.
proof fn lemma_first(s: Seq<u8>)
    requires
        s.len() > 0,
    ensures
        number_of(s) == s[0] as nat * octet_weight((s.len() - 1) as nat) + number_of(s.skip(1)),
        number_of(s.skip(1)) < octet_weight((s.len() - 1) as nat),
    decreases s.len(),
{
    if s.len() == 1 {
        assert(s.skip(1) =~= Seq::<u8>::empty());
        assert(s.drop_last() =~= Seq::<u8>::empty());
        assert(number_of(Seq::<u8>::empty()) == 0);
        assert(octet_weight(0) == 1);
        assert(s[0] as nat * octet_weight(0) == s[0]) by (nonlinear_arith)
            requires
                octet_weight(0) == 1,
        ;
    } else {
        lemma_first(s.drop_last());
        assert(s.drop_last().skip(1) =~= s.skip(1).drop_last());
        assert(s.skip(1).last() == s.last());
        assert(s.drop_last()[0] == s[0]);
        let w = octet_weight((s.len() - 2) as nat) as int;
        let f = s[0] as int;
        let v = number_of(s.drop_last().skip(1)) as int;
        let l = s.last() as int;
        assert((f * w + v) * 256 + l == f * (256 * w) + (v * 256 + l)) by (nonlinear_arith);
    }
}

proof fn lemma_first_differs(a: Seq<u8>, b: Seq<u8>)
    requires
        a.len() == b.len(),
        a.len() > 0,
        a[0] < b[0],
    ensures
        number_of(a) < number_of(b),
{
    lemma_first(a);
    lemma_first(b);
    let w = octet_weight((a.len() - 1) as nat) as int;
    let x = a[0] as int;
    let y = b[0] as int;
    assert(x * w + w <= y * w) by (nonlinear_arith)
        requires
            x < y,
            w >= 0,
    ;
}

proof fn lemma_second_differs(a: Seq<u8>, b: Seq<u8>)
    requires
        a.len() == b.len(),
        a.len() > 1,
        a[0] == b[0],
        a[1] < b[1],
    ensures
        number_of(a) < number_of(b),
{
    lemma_first(a);
    lemma_first(b);
    assert(a.skip(1)[0] == a[1]);
    assert(b.skip(1)[0] == b[1]);
    lemma_first_differs(a.skip(1), b.skip(1));
}

/// A private key and the public point that goes with it.
#[derive(Debug)]
pub struct EccKey {
    pub curve: Curve,
    pub private: BigNum,
    pub public_x: Vec<u8>,
    pub public_y: Vec<u8>,
}

impl EccKey {
    /// True when the public point is the private key times the generator.
    pub open spec fn wf(&self) -> bool {
        &&& self.curve.wf()
        &&& match base_multiplied(self.curve.model(), self.private@) {
            None => false,
            Some((x, y)) => self.public_x@ == octets_of(x, self.curve.model().size)
                && self.public_y@ == octets_of(y, self.curve.model().size),
        }
        &&& self.public_x@.len() == self.curve.model().size
        &&& self.public_y@.len() == self.curve.model().size
    }
}

/// The key of a private scalar.
pub fn key_from_private(curve: Curve, private: BigNum) -> (r: TpmResult<EccKey>)
    requires
        curve.wf(),
    ensures
        r is Ok <==> base_multiplied(curve.model(), private@) is Some,
        r matches Ok(k) ==> k.wf() && k.curve == curve && k.private == private,
        r is Err ==> r->Err_0 == TpmRc(rc::NO_RESULT),
{
    let point: Point = curve.multiply_base(&private);
    if point.is_infinite() {
        return Err(TpmRc(rc::NO_RESULT));
    }
    let size: usize = curve.coordinate_size();
    let public_x: Vec<u8> = point.x().to_bytes_padded(size);
    let public_y: Vec<u8> = point.y().to_bytes_padded(size);
    Ok(EccKey { curve, private, public_x, public_y })
}

/// Draw a scalar by trying until one is in range.
pub fn draw_scalar<R: Rng>(curve: &Curve, rng: &mut R) -> (r: TpmResult<BigNum>)
    requires
        curve.wf(),
    ensures
        final(rng).model() == scalar_drawn(curve.model(), old(rng).model(), DRAWS as nat).1,
        match scalar_drawn(curve.model(), old(rng).model(), DRAWS as nat).0 {
            Ok(k) => r is Ok && r->Ok_0@ == k && 0 < k < curve.model().n,
            Err(e) => r is Err && r->Err_0 == e,
        },
{
    let mut left: usize = DRAWS;
    let ghost start = rng.model();
    while left > 0
        invariant
            left <= DRAWS,
            curve.wf(),
            start == old(rng).model(),
            scalar_drawn(curve.model(), start, DRAWS as nat) == scalar_drawn(
                curve.model(),
                rng.model(),
                left as nat,
            ),
        decreases left,
    {
        let size: usize = curve.coordinate_size();
        let mut octets: Vec<u8> = rng.bytes(size)?;
        curve.trim(&mut octets);
        let k: BigNum = BigNum::from_bytes(octets.as_slice());
        if !k.is_zero() && k.less(&curve.n) {
            return Ok(k);
        }
        left = left - 1;
    }
    Err(TpmRc(rc::NO_RESULT))
}

/// Draw a private key with 64 extra bits, so that no octet is rejected.
pub fn private_key_extra_bits<R: Rng>(curve: &Curve, rng: &mut R) -> (r: TpmResult<BigNum>)
    requires
        curve.wf(),
    ensures
        final(rng).model() == extra_drawn(curve.model(), old(rng).model()).1,
        match extra_drawn(curve.model(), old(rng).model()).0 {
            Ok(k) => r is Ok && r->Ok_0@ == k,
            Err(e) => r is Err && r->Err_0 == e,
        },
{
    proof {
        lemma_curve(curve.id);
    }
    let count: usize = if curve.bits == 521 {
        74
    } else {
        curve.size + 8
    };
    let mut octets: Vec<u8> = rng.bytes(count)?;
    curve.trim(&mut octets);
    let c: BigNum = BigNum::from_bytes(octets.as_slice());
    Ok(c.modulo(&curve.n.sub_word(1)).add_word(1))
}

/// What a key drawn from a generator is, and what the generator is left with.
pub open spec fn key_drawn(c: CurveModel, m: RngModel) -> (TpmResult<nat>, RngModel) {
    match scalar_drawn(c, m, DRAWS as nat) {
        (Err(e), left) => (Err(e), left),
        (Ok(k), left) => if base_multiplied(c, k) is Some {
            (Ok(k), left)
        } else {
            (Err(TpmRc(rc::NO_RESULT)), left)
        },
    }
}

/// Draw a key.
pub fn generate<R: Rng>(curve_id: u16, rng: &mut R) -> (r: TpmResult<EccKey>)
    ensures
        !known_curve(curve_id) ==> r is Err && r->Err_0 == TpmRc(rc::CURVE) && final(rng).model()
            == old(rng).model(),
        known_curve(curve_id) ==> {
            &&& final(rng).model() == key_drawn(curve_of(curve_id), old(rng).model()).1
            &&& match key_drawn(curve_of(curve_id), old(rng).model()).0 {
                Ok(k) => r is Ok && r->Ok_0.private@ == k && r->Ok_0.wf()
                    && r->Ok_0.curve.spec_id() == curve_id,
                Err(e) => r is Err && r->Err_0 == e,
            }
        },
{
    let curve: Curve = Curve::new(curve_id)?;
    let private: BigNum = draw_scalar(&curve, rng)?;
    key_from_private(curve, private)
}

/// The point that two keys share, given the other's public point.
pub open spec fn shared(c: CurveModel, d: nat, x: nat, y: nat) -> Option<(nat, nat)> {
    if on_curve(c, x, y) {
        multiplied(c, d, Some((x, y)))
    } else {
        None
    }
}

/// The coordinates of the point that two keys share.
pub fn ecdh(curve: &Curve, private: &BigNum, x: &[u8], y: &[u8]) -> (r: TpmResult<
    (Vec<u8>, Vec<u8>),
>)
    requires
        curve.wf(),
    ensures
        match shared(curve.model(), private@, number_of(x@), number_of(y@)) {
            Some((zx, zy)) => r is Ok && (r->Ok_0).0@ == octets_of(zx, curve.model().size) && (
            r->Ok_0).1@ == octets_of(zy, curve.model().size) && (r->Ok_0).0@.len()
                == curve.model().size && (r->Ok_0).1@.len() == curve.model().size,
            None => r is Err && r->Err_0 == TpmRc(if on_curve(
                curve.model(),
                number_of(x@),
                number_of(y@),
            ) {
                rc::NO_RESULT
            } else {
                rc::ECC_POINT
            }),
        },
{
    let px: BigNum = BigNum::from_bytes(x);
    let py: BigNum = BigNum::from_bytes(y);
    if !curve.on_curve(&px, &py) {
        return Err(TpmRc(rc::ECC_POINT));
    }
    let z: Point = curve.multiply(private, &Point::new(px, py));
    if z.is_infinite() {
        return Err(TpmRc(rc::NO_RESULT));
    }
    let size: usize = curve.coordinate_size();
    Ok((z.x().to_bytes_padded(size), z.y().to_bytes_padded(size)))
}

/// A signature, both parts as wide as a coordinate.
#[derive(Debug)]
pub struct EccSignature {
    pub r: Vec<u8>,
    pub s: Vec<u8>,
}

impl EccSignature {
    /// True when the octets stand for those numbers.
    pub open spec fn is(&self, c: CurveModel, rs: (nat, nat)) -> bool {
        &&& self.r@ == octets_of(rs.0, c.size)
        &&& self.s@ == octets_of(rs.1, c.size)
        &&& self.r@.len() == c.size
        &&& self.s@.len() == c.size
    }
}

/// The leftmost octets of a digest that the order has room for.
fn number_for(curve: &Curve, d: &[u8]) -> (r: BigNum)
    requires
        curve.wf(),
    ensures
        r@ == digest_number(curve.model(), d@),
{
    if d.len() > curve.size {
        let cut: Vec<u8> = sub_vec(d, 0, curve.size);
        assert(cut@ =~= d@.take(curve.size as int));
        return BigNum::from_bytes(cut.as_slice());
    }
    BigNum::from_bytes(d)
}

/// The ECDSA signature with a given nonce.
fn ecdsa_with(curve: &Curve, private: &BigNum, e: &BigNum, k: &BigNum) -> (r: Option<
    (BigNum, BigNum),
>)
    requires
        curve.wf(),
    ensures
        match ecdsa_of(curve.model(), private@, e@, k@) {
            Some(rs) => r is Some && (r->0).0@ == rs.0 && (r->0).1@ == rs.1,
            None => r is None,
        },
{
    proof {
        lemma_curve(curve.id);
    }
    let point: Point = curve.multiply_base(k);
    if point.is_infinite() {
        return None;
    }
    let first: BigNum = point.x().modulo(&curve.n);
    let inner: BigNum = e.plus(&first.times(private)).modulo(&curve.n);
    let second: BigNum = k.inverse_mod(&curve.n).times_mod(&inner, &curve.n);
    if first.is_zero() || second.is_zero() {
        return None;
    }
    Some((first, second))
}

/// What a Schnorr signature commits to.
fn challenge(curve: &Curve, hash_alg: u16, x: &BigNum, d: &[u8]) -> (r: BigNum)
    requires
        curve.wf(),
        supported(hash_alg),
    ensures
        r@ == schnorr_challenge(curve.model(), hash_alg, x@, d@),
{
    proof {
        lemma_curve(curve.id);
    }
    let mut data: Vec<u8> = x.to_bytes_padded(curve.size);
    data.extend_from_slice(d);
    assert(data@ =~= octets_of(x@, curve.model().size) + d@);
    match digest(hash_alg, data.as_slice()) {
        Ok(h) => number_for(curve, h.as_slice()).modulo(&curve.n),
        Err(_) => BigNum::zero(),
    }
}

/// The Schnorr signature with a given nonce.
fn schnorr_with(curve: &Curve, private: &BigNum, hash_alg: u16, d: &[u8], k: &BigNum) -> (r: Option<
    (BigNum, BigNum),
>)
    requires
        curve.wf(),
        supported(hash_alg),
    ensures
        match schnorr_of(curve.model(), private@, hash_alg, d@, k@) {
            Some(rs) => r is Some && (r->0).0@ == rs.0 && (r->0).1@ == rs.1,
            None => r is None,
        },
{
    proof {
        lemma_curve(curve.id);
    }
    let point: Point = curve.multiply_base(k);
    if point.is_infinite() {
        return None;
    }
    let first: BigNum = challenge(curve, hash_alg, point.x(), d);
    let second: BigNum = k.plus(&first.times(private)).modulo(&curve.n);
    if first.is_zero() || second.is_zero() {
        return None;
    }
    Some((first, second))
}

/// A signature as octets.
fn to_signature(curve: &Curve, first: &BigNum, second: &BigNum) -> (r: EccSignature)
    requires
        curve.wf(),
    ensures
        r.is(curve.model(), (first@, second@)),
{
    let size: usize = curve.coordinate_size();
    EccSignature { r: first.to_bytes_padded(size), s: second.to_bytes_padded(size) }
}

/// Sign a digest with ECDSA.
pub fn ecdsa_sign<R: Rng>(curve: &Curve, private: &BigNum, digest: &[u8], rng: &mut R) -> (r:
    TpmResult<EccSignature>)
    requires
        curve.wf(),
    ensures
        ({
            let c = curve.model();
            let what = Signing::Ecdsa { e: digest_number(c, digest@) };
            let out = signed(c, private@, what, old(rng).model(), DRAWS as nat);
            &&& final(rng).model() == out.1
            &&& match out.0 {
                Ok(rs) => r is Ok && r->Ok_0.is(c, rs),
                Err(e) => r is Err && r->Err_0 == e,
            }
        }),
{
    let e: BigNum = number_for(curve, digest);
    let ghost what = Signing::Ecdsa { e: e@ };
    let ghost start = rng.model();
    let mut left: usize = DRAWS;
    while left > 0
        invariant
            left <= DRAWS,
            curve.wf(),
            start == old(rng).model(),
            e@ == digest_number(curve.model(), digest@),
            what == (Signing::Ecdsa { e: e@ }),
            signed(curve.model(), private@, what, start, DRAWS as nat) == signed(
                curve.model(),
                private@,
                what,
                rng.model(),
                left as nat,
            ),
        decreases left,
    {
        let k: BigNum = draw_scalar(curve, rng)?;
        match ecdsa_with(curve, private, &e, &k) {
            Some((first, second)) => {
                return Ok(to_signature(curve, &first, &second));
            },
            None => {},
        }
        left = left - 1;
    }
    Err(TpmRc(rc::NO_RESULT))
}

/// Sign a digest with Schnorr's scheme.
pub fn ecschnorr_sign<R: Rng>(
    curve: &Curve,
    private: &BigNum,
    hash_alg: u16,
    digest: &[u8],
    rng: &mut R,
) -> (r: TpmResult<EccSignature>)
    requires
        curve.wf(),
        supported(hash_alg),
    ensures
        ({
            let c = curve.model();
            let what = Signing::Schnorr { hash_alg, digest: digest@ };
            let out = signed(c, private@, what, old(rng).model(), DRAWS as nat);
            &&& final(rng).model() == out.1
            &&& match out.0 {
                Ok(rs) => r is Ok && r->Ok_0.is(c, rs),
                Err(e) => r is Err && r->Err_0 == e,
            }
        }),
{
    let ghost what = Signing::Schnorr { hash_alg, digest: digest@ };
    let ghost start = rng.model();
    let mut left: usize = DRAWS;
    while left > 0
        invariant
            left <= DRAWS,
            curve.wf(),
            start == old(rng).model(),
            supported(hash_alg),
            what == (Signing::Schnorr { hash_alg, digest: digest@ }),
            signed(curve.model(), private@, what, start, DRAWS as nat) == signed(
                curve.model(),
                private@,
                what,
                rng.model(),
                left as nat,
            ),
        decreases left,
    {
        let k: BigNum = draw_scalar(curve, rng)?;
        match schnorr_with(curve, private, hash_alg, digest, &k) {
            Some((first, second)) => {
                return Ok(to_signature(curve, &first, &second));
            },
            None => {},
        }
        left = left - 1;
    }
    Err(TpmRc(rc::NO_RESULT))
}

/// True for a part of a signature that is in range.
fn in_range(curve: &Curve, v: &BigNum) -> (r: bool)
    requires
        curve.wf(),
    ensures
        r == (0 < v@ < curve.model().n),
{
    !v.is_zero() && v.less(&curve.n)
}

/// Verify an ECDSA signature of a digest.
pub fn ecdsa_verify(curve: &Curve, x: &[u8], y: &[u8], digest: &[u8], signature: &EccSignature)
    -> (r: TpmResult<()>)
    requires
        curve.wf(),
    ensures
        r is Ok <==> ecdsa_verifies(
            curve.model(),
            number_of(x@),
            number_of(y@),
            digest_number(curve.model(), digest@),
            number_of(signature.r@),
            number_of(signature.s@),
        ),
        r is Err ==> r->Err_0 == TpmRc(rc::SIGNATURE),
{
    let first: BigNum = BigNum::from_bytes(signature.r.as_slice());
    let second: BigNum = BigNum::from_bytes(signature.s.as_slice());
    let px: BigNum = BigNum::from_bytes(x);
    let py: BigNum = BigNum::from_bytes(y);
    let e: BigNum = number_for(curve, digest);
    if !verifies(curve, &px, &py, &e, &first, &second) {
        return Err(TpmRc(rc::SIGNATURE));
    }
    Ok(())
}

/// Verify a Schnorr signature of a digest.
pub fn ecschnorr_verify(
    curve: &Curve,
    x: &[u8],
    y: &[u8],
    hash_alg: u16,
    digest: &[u8],
    signature: &EccSignature,
) -> (r: TpmResult<()>)
    requires
        curve.wf(),
        supported(hash_alg),
    ensures
        r is Ok <==> schnorr_verifies(
            curve.model(),
            number_of(x@),
            number_of(y@),
            hash_alg,
            digest@,
            number_of(signature.r@),
            number_of(signature.s@),
        ),
        r is Err ==> r->Err_0 == TpmRc(rc::SIGNATURE),
{
    proof {
        lemma_curve(curve.id);
    }
    let first: BigNum = BigNum::from_bytes(signature.r.as_slice());
    let second: BigNum = BigNum::from_bytes(signature.s.as_slice());
    let px: BigNum = BigNum::from_bytes(x);
    let py: BigNum = BigNum::from_bytes(y);
    if !in_range(curve, &first) || !in_range(curve, &second) || !curve.on_curve(&px, &py) {
        return Err(TpmRc(rc::SIGNATURE));
    }
    let left: Point = curve.multiply_base(&second);
    let right: Point = curve.multiply(&curve.n.minus(&first), &Point::new(px, py));
    let sum: Point = curve.add(&left, &right);
    if sum.is_infinite() {
        return Err(TpmRc(rc::SIGNATURE));
    }
    if !challenge(curve, hash_alg, sum.x(), digest).same(&first) {
        return Err(TpmRc(rc::SIGNATURE));
    }
    Ok(())
}

/// True when a key pair works: the public point is the private key times the
/// generator, and a key that signs verifies what it signs.
pub open spec fn pair_works(c: CurveModel, d: nat, x: nat, y: nat, signs: bool) -> bool {
    &&& base_multiplied(c, d) == Some((x, y))
    &&& signs ==> match ecdsa_of(c, d, 1, 2) {
        None => false,
        Some((r, s)) => ecdsa_verifies(c, x, y, 1, r, s),
    }
}

/// True when a key pair works.
pub fn test_pair(curve: &Curve, private: &BigNum, x: &BigNum, y: &BigNum, signs: bool) -> (r: bool)
    requires
        curve.wf(),
    ensures
        r == pair_works(curve.model(), private@, x@, y@, signs),
{
    let point: Point = curve.multiply_base(private);
    if point.is_infinite() || !point.x().same(x) || !point.y().same(y) {
        return false;
    }
    if !signs {
        return true;
    }
    match ecdsa_with(curve, private, &BigNum::small(1), &BigNum::small(2)) {
        None => false,
        Some((first, second)) => verifies(curve, x, y, &BigNum::small(1), &first, &second),
    }
}

/// True when the numbers are an ECDSA signature of `e`.
fn verifies(curve: &Curve, px: &BigNum, py: &BigNum, e: &BigNum, first: &BigNum, second: &BigNum)
    -> (r: bool)
    requires
        curve.wf(),
    ensures
        r == ecdsa_verifies(curve.model(), px@, py@, e@, first@, second@),
{
    proof {
        lemma_curve(curve.id);
    }
    if !in_range(curve, first) || !in_range(curve, second) || !curve.on_curve(px, py) {
        return false;
    }
    let w: BigNum = second.inverse_mod(&curve.n);
    let left: Point = curve.multiply_base(&e.times_mod(&w, &curve.n));
    let right: Point = curve.multiply(
        &first.times_mod(&w, &curve.n),
        &Point::new(px.copy(), py.copy()),
    );
    let sum: Point = curve.add(&left, &right);
    !sum.is_infinite() && sum.x().modulo(&curve.n).same(first)
}

/// A coordinate takes at most 66 octets.
pub proof fn lemma_coordinate_size(id: u16)
    ensures
        curve_of(id).size <= 66,
{
    lemma_curve(id);
}

/// The field, the coefficients and the order take at most 66 octets.
pub proof fn lemma_parameter_sizes(id: u16)
    ensures
        octet_length(curve_of(id).p) <= 66,
        octet_length(curve_of(id).a) <= 66,
        octet_length(curve_of(id).b) <= 66,
        octet_length(curve_of(id).n) <= 66,
{
    reveal(curve_of);
    lemma_three_less(P256_P@);
    lemma_three_less(P384_P@);
    lemma_three_less(P521_P@);
    lemma_octet_length(P256_P@);
    lemma_octet_length(P384_P@);
    lemma_octet_length(P521_P@);
    lemma_octet_length(P256_B@);
    lemma_octet_length(P384_B@);
    lemma_octet_length(P521_B@);
    lemma_octet_length(P256_N@);
    lemma_octet_length(P384_N@);
    lemma_octet_length(P521_N@);
}

/// Three less than a number takes no more octets than the number.
proof fn lemma_three_less(s: Seq<u8>)
    requires
        s.len() > 0,
        s.last() >= 3,
    ensures
        number_of(s) >= 3,
        octet_length((number_of(s) - 3) as nat) <= s.len(),
{
    let t = s.drop_last().push((s.last() - 3) as u8);
    assert(t.drop_last() =~= s.drop_last());
    lemma_octet_length(t);
}

/// Adding a point of the field to itself leads to a point of the field.
proof fn lemma_multiplied_in_field(c: CurveModel, k: nat, q: Option<(nat, nat)>)
    requires
        c.p > 0,
        q matches Some((x, y)) ==> x < c.p && y < c.p,
    ensures
        multiplied(c, k, q) matches Some((x, y)) ==> x < c.p && y < c.p,
    decreases k,
{
    if k > 0 {
        lemma_multiplied_in_field(c, k / 2, q);
    }
}

/// The coordinates of a public key are read back from the octets they are
/// written in.
pub proof fn lemma_base_multiplied(id: u16, k: nat)
    ensures
        match base_multiplied(curve_of(id), k) {
            Some((x, y)) => number_of(octets_of(x, curve_of(id).size)) == x && number_of(
                octets_of(y, curve_of(id).size),
            ) == y,
            None => true,
        },
{
    lemma_curve(id);
    lemma_generator(id);
    lemma_field_fits(id);
    lemma_multiplied_in_field(curve_of(id), k, Some((curve_of(id).gx, curve_of(id).gy)));
    match base_multiplied(curve_of(id), k) {
        Some((x, y)) => {
            lemma_octets_read_back(x, curve_of(id).size);
            lemma_octets_read_back(y, curve_of(id).size);
        },
        None => {},
    }
}

/// The field and the order fit the octets of a coordinate.
pub proof fn lemma_field_fits(id: u16)
    ensures
        curve_of(id).p < octet_weight(curve_of(id).size),
        curve_of(id).n < octet_weight(curve_of(id).size),
{
    reveal(curve_of);
    lemma_number_bound(P256_P@);
    lemma_number_bound(P384_P@);
    lemma_number_bound(P521_P@);
    lemma_number_bound(P256_N@);
    lemma_number_bound(P384_N@);
    lemma_number_bound(P521_N@);
}

/// A scalar that was drawn is in range.
pub proof fn lemma_scalar_in_range(c: CurveModel, m: RngModel, tries: nat)
    ensures
        scalar_drawn(c, m, tries).0 matches Ok(k) ==> 0 < k < c.n,
    decreases tries,
{
    if tries > 0 {
        lemma_scalar_in_range(c, draw(m, c.size).1, (tries - 1) as nat);
    }
}

/// A key that was drawn is read back from the octets it is written in.
pub proof fn lemma_key_drawn(id: u16, m: RngModel)
    ensures
        key_drawn(curve_of(id), m).0 matches Ok(k) ==> number_of(octets_of(k, curve_of(id).size))
            == k,
{
    lemma_scalar_in_range(curve_of(id), m, DRAWS as nat);
    lemma_field_fits(id);
    match key_drawn(curve_of(id), m).0 {
        Ok(k) => {
            lemma_octets_read_back(k, curve_of(id).size);
        },
        Err(_) => {},
    }
}

/// A scalar that was drawn with extra bits is read back from the octets it is
/// written in.
pub proof fn lemma_extra_drawn(id: u16, m: RngModel)
    ensures
        extra_drawn(curve_of(id), m).0 matches Ok(k) ==> number_of(octets_of(k, curve_of(id).size))
            == k,
{
    lemma_curve(id);
    lemma_field_fits(id);
    match extra_drawn(curve_of(id), m).0 {
        Ok(k) => {
            lemma_octets_read_back(k, curve_of(id).size);
        },
        Err(_) => {},
    }
}

} // verus!
