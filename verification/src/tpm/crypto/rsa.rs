//! RSA.

use vstd::prelude::*;

use super::bn::{
    bit_length, inverse, is_inverse, lemma_inverse, lemma_number_bound, lemma_octet_weights,
    lemma_octets_read_back, number_of, octet_length, octet_weight, octets_of, power_mod, BigNum,
};
use super::rand::{draw, lemma_draw_len, Rng, RngModel};
use crate::tpm::constants::rc;
use crate::tpm::error::{TpmRc, TpmResult};
use crate::tpm::structures::keys::rsa_bits;
use vstd::arithmetic::div_mod::{
    lemma_fundamental_div_mod, lemma_fundamental_div_mod_converse, lemma_small_mod,
};

verus! {

pub use super::rsa_padding::{
    oaep_decode, oaep_encode, pkcs1v15_encrypt_pad, pkcs1v15_encrypt_unpad, pkcs1v15_sign_encode,
    pss_encode, pss_verify,
};

/// The public exponent that stands for none.
pub const DEFAULT_EXPONENT: u32 = 65537;

/// How often a prime is drawn before the generator is given up on.
pub const DRAWS: usize = 20000;

/// The primes that a candidate is divided by first.
pub const SMALL_PRIMES: [u32; 53] = [
    3, 5, 7, 11, 13, 17, 19, 23, 29, 31, 37, 41, 43, 47, 53, 59, 61, 67, 71, 73, 79, 83, 89, 97,
    101, 103, 107, 109, 113, 127, 131, 137, 139, 149, 151, 157, 163, 167, 173, 179, 181, 191, 193,
    197, 199, 211, 223, 227, 229, 233, 239, 241, 251,
];

/// The bases that a candidate is tested with.
pub const BASES: [u32; 12] = [2, 3, 5, 7, 11, 13, 17, 19, 23, 29, 31, 37];

/// The exponent that a template asks for.
pub open spec fn exponent_of(e: u32) -> nat {
    if e == 0 {
        65537
    } else {
        e as nat
    }
}

/// The exponent that a template asks for.
fn exponent(e: u32) -> (r: u32)
    ensures
        r == exponent_of(e),
        r > 0,
{
    if e == 0 {
        DEFAULT_EXPONENT
    } else {
        e
    }
}

/// How often two divides a number.
pub open spec fn twos(n: nat) -> nat
    decreases n,
{
    if n == 0 || n % 2 == 1 {
        0
    } else {
        1 + twos(n / 2)
    }
}

/// What is left of a number when two no longer divides it.
pub open spec fn odd_part(n: nat) -> nat
    decreases n,
{
    if n == 0 || n % 2 == 1 {
        n
    } else {
        odd_part(n / 2)
    }
}

/// True when squaring `x` fewer than `s` times reaches `c - 1`.
pub open spec fn reaches(x: nat, c: nat, s: nat) -> bool
    decreases s,
{
    s > 0 && (x == c - 1 || reaches((x * x) % c, c, (s - 1) as nat))
}

/// True when `c` looks prime to the base `b`.
pub open spec fn strong(c: nat, b: nat) -> bool {
    let x = power_mod(b, odd_part((c - 1) as nat), c);
    x == 1 || reaches(x, c, twos((c - 1) as nat))
}

/// True when `c` is taken to be prime: none of the small primes divides it and
/// it looks prime to every base.
pub open spec fn probably_prime(c: nat) -> bool {
    &&& forall|i: int| 0 <= i < SMALL_PRIMES@.len() ==> c % (#[trigger] SMALL_PRIMES@[i] as nat) != 0
    &&& forall|i: int| 0 <= i < BASES@.len() ==> strong(c, #[trigger] BASES@[i] as nat)
}

/// Octets with the two highest bits and the lowest set.
pub open spec fn as_candidate(s: Seq<u8>) -> Seq<u8> {
    if s.len() < 2 {
        s
    } else {
        s.update(0, (s[0] % 64 + 192) as u8).update(
            s.len() - 1,
            (s[s.len() - 1] / 2 * 2 + 1) as u8,
        )
    }
}

/// True when a key can have `c` for a factor.
pub open spec fn usable(c: nat, e: nat) -> bool {
    c > 3 && (c - 1) as nat % e != 0 && probably_prime(c)
}

/// A prime of `len` octets drawn by trying until one is usable, and what the
/// generator is left with.
pub open spec fn prime_drawn(m: RngModel, len: nat, e: nat, tries: nat) -> (
    TpmResult<nat>,
    RngModel,
)
    decreases tries,
{
    if tries == 0 {
        (Err(TpmRc(rc::NO_RESULT)), m)
    } else {
        match draw(m, len) {
            (Err(x), left) => (Err(x), left),
            (Ok(s), left) => {
                let c = number_of(as_candidate(s));
                if usable(c, e) {
                    (Ok(c), left)
                } else {
                    prime_drawn(left, len, e, (tries - 1) as nat)
                }
            },
        }
    }
}

/// How many numbers below a product of two primes have no factor with it.
pub open spec fn totient(p: nat, q: nat) -> nat {
    ((p - 1) as nat) * ((q - 1) as nat)
}

/// The factors of a modulus of `bits` bits, and what the generator is left
/// with.
pub open spec fn factors_drawn(m: RngModel, bits: u16, exponent: u32) -> (
    TpmResult<(nat, nat)>,
    RngModel,
) {
    let e = exponent_of(exponent);
    let len = (bits / 16) as nat;
    if !rsa_bits(bits) {
        (Err(TpmRc(rc::VALUE)), m)
    } else if e < 3 || e % 2 == 0 {
        (Err(TpmRc(rc::RANGE)), m)
    } else {
        match prime_drawn(m, len, e, DRAWS as nat) {
            (Err(x), left) => (Err(x), left),
            (Ok(p), left) => match prime_drawn(left, len, e, DRAWS as nat) {
                (Err(x), last) => (Err(x), last),
                (Ok(q), last) => if p == q || bit_length(p * q) != bits || inverse(
                    e,
                    totient(p, q),
                ) == 0 {
                    (Err(TpmRc(rc::NO_RESULT)), last)
                } else {
                    (Ok((p, q)), last)
                },
            },
        }
    }
}

/// The public half of a key.
#[derive(Debug)]
pub struct RsaPublic {
    modulus: BigNum,
    exponent: BigNum,
    size: usize,
    bits: usize,
}

/// Raising a number to an exponent: the value must be below the modulus.
pub open spec fn raised(n: nat, e: nat, size: nat, data: Seq<u8>) -> TpmResult<Seq<u8>> {
    if number_of(data) >= n {
        Err(TpmRc(rc::VALUE))
    } else {
        Ok(octets_of(power_mod(number_of(data), e, n), size))
    }
}

impl RsaPublic {
    /// The modulus.
    pub closed spec fn n(&self) -> nat {
        self.modulus@
    }

    /// The public exponent.
    pub closed spec fn e(&self) -> nat {
        self.exponent@
    }

    /// How many octets the modulus takes.
    pub closed spec fn len(&self) -> nat {
        self.size as nat
    }

    /// True when the lengths are those of the modulus.
    pub closed spec fn wf(&self) -> bool {
        &&& self.modulus@ > 0
        &&& self.size == octet_length(self.modulus@)
        &&& self.bits == bit_length(self.modulus@)
    }

    /// The public key of a modulus and an exponent.
    pub fn new(modulus: &[u8], exponent: u32) -> (r: TpmResult<RsaPublic>)
        ensures
            r is Ok <==> number_of(modulus@) > 0,
            r is Err ==> r->Err_0 == TpmRc(rc::VALUE),
            r matches Ok(k) ==> {
                &&& k.wf()
                &&& k.n() == number_of(modulus@)
                &&& k.e() == exponent_of(exponent)
                &&& k.len() == octet_length(number_of(modulus@))
            },
    {
        let n: BigNum = BigNum::from_bytes(modulus);
        if n.is_zero() {
            return Err(TpmRc(rc::VALUE));
        }
        let e: BigNum = BigNum::small(self::exponent(exponent));
        let bits: usize = n.bits();
        let size: usize = if bits % 8 == 0 {
            bits / 8
        } else {
            bits / 8 + 1
        };
        Ok(RsaPublic { modulus: n, exponent: e, size, bits })
    }

    /// How many octets the modulus takes.
    pub fn size(&self) -> (r: usize)
        ensures
            r == self.len(),
    {
        self.size
    }

    /// How many bits the modulus takes.
    pub fn bits(&self) -> (r: usize)
        requires
            self.wf(),
        ensures
            r == bit_length(self.n()),
            r > 0,
            self.len() == (r + 7) / 8,
    {
        self.bits
    }
}

/// Apply the public key.
pub fn public_op(key: &RsaPublic, data: &[u8]) -> (r: TpmResult<Vec<u8>>)
    requires
        key.wf(),
    ensures
        match raised(key.n(), key.e(), key.len(), data@) {
            Ok(s) => r is Ok && r->Ok_0@ == s && s.len() == key.len(),
            Err(e) => r is Err && r->Err_0 == e,
        },
{
    let v: BigNum = BigNum::from_bytes(data);
    if !v.less(&key.modulus) {
        return Err(TpmRc(rc::VALUE));
    }
    Ok(v.power_mod(&key.exponent, &key.modulus).to_bytes_padded(key.size))
}

/// A whole key.
#[derive(Debug)]
pub struct RsaPrivate {
    public: RsaPublic,
    private: BigNum,
    prime: BigNum,
}

/// The private exponent of a modulus of which one factor is known, zero when
/// there is none.
pub open spec fn private_of(n: nat, e: nat, p: nat) -> nat {
    if p <= 1 || n == 0 || n % p != 0 || n / p <= 1 || totient(p, n / p) <= 1 {
        0
    } else {
        inverse(e, totient(p, n / p))
    }
}

impl RsaPrivate {
    /// The modulus.
    pub closed spec fn n(&self) -> nat {
        self.public.n()
    }

    /// The public exponent.
    pub closed spec fn e(&self) -> nat {
        self.public.e()
    }

    /// The private exponent.
    pub closed spec fn d(&self) -> nat {
        self.private@
    }

    /// One factor of the modulus.
    pub closed spec fn p(&self) -> nat {
        self.prime@
    }

    /// How many octets the modulus takes.
    pub closed spec fn len(&self) -> nat {
        self.public.len()
    }

    /// True when the private exponent goes with the rest.
    pub closed spec fn wf(&self) -> bool {
        &&& self.public.wf()
        &&& self.d() == private_of(self.n(), self.e(), self.p())
        &&& self.d() != 0
        &&& self.len() == octet_length(self.n())
    }

    /// The key of a modulus, an exponent and one factor of the modulus.
    pub fn from_prime(modulus: &[u8], exponent: u32, prime: &[u8]) -> (r: TpmResult<RsaPrivate>)
        ensures
            number_of(modulus@) == 0 ==> r is Err && r->Err_0 == TpmRc(rc::VALUE),
            number_of(modulus@) > 0 ==> (r is Ok <==> private_of(
                number_of(modulus@),
                exponent_of(exponent),
                number_of(prime@),
            ) != 0),
            number_of(modulus@) > 0 && r is Err ==> r->Err_0 == TpmRc(rc::BINDING),
            r matches Ok(k) ==> {
                &&& k.wf()
                &&& k.n() == number_of(modulus@)
                &&& k.e() == exponent_of(exponent)
                &&& k.p() == number_of(prime@)
                &&& k.len() == octet_length(number_of(modulus@))
                &&& k.d() == private_of(
                    number_of(modulus@),
                    exponent_of(exponent),
                    number_of(prime@),
                )
            },
    {
        let public: RsaPublic = RsaPublic::new(modulus, exponent)?;
        let p: BigNum = BigNum::from_bytes(prime);
        let one: BigNum = BigNum::small(1);
        if !one.less(&p) || !public.modulus.modulo(&p).is_zero() {
            return Err(TpmRc(rc::BINDING));
        }
        let q: BigNum = public.modulus.divide(&p);
        if !one.less(&q) {
            return Err(TpmRc(rc::BINDING));
        }
        let phi: BigNum = p.sub_word(1).times(&q.sub_word(1));
        if !one.less(&phi) {
            return Err(TpmRc(rc::BINDING));
        }
        let d: BigNum = small_inverse(self::exponent(exponent), &phi);
        if d.is_zero() {
            return Err(TpmRc(rc::BINDING));
        }
        Ok(RsaPrivate { public, private: d, prime: p })
    }

    /// How many octets the modulus takes.
    pub fn size(&self) -> (r: usize)
        ensures
            r == self.len(),
    {
        self.public.size
    }

    /// The factor, half as wide as the modulus.
    pub fn prime_bytes(&self) -> (r: Vec<u8>)
        ensures
            r@ == octets_of(self.p(), self.len() / 2),
            r@.len() == self.len() / 2,
    {
        self.prime.to_bytes_padded(self.public.size / 2)
    }

    /// The modulus.
    pub fn modulus_bytes(&self) -> (r: Vec<u8>)
        ensures
            r@ == octets_of(self.n(), self.len()),
            r@.len() == self.len(),
    {
        self.public.modulus.to_bytes_padded(self.public.size)
    }

    /// The public half.
    pub fn public(&self) -> (r: &RsaPublic)
        requires
            self.wf(),
        ensures
            r.wf(),
            r.n() == self.n(),
            r.e() == self.e(),
            r.len() == self.len(),
    {
        &self.public
    }
}

/// Apply the private key.
pub fn private_op(key: &RsaPrivate, data: &[u8]) -> (r: TpmResult<Vec<u8>>)
    requires
        key.wf(),
    ensures
        match raised(key.n(), key.d(), key.len(), data@) {
            Ok(s) => r is Ok && r->Ok_0@ == s && s.len() == key.len(),
            Err(e) => r is Err && r->Err_0 == e,
        },
{
    let v: BigNum = BigNum::from_bytes(data);
    if !v.less(&key.public.modulus) {
        return Err(TpmRc(rc::VALUE));
    }
    Ok(v.power_mod(&key.private, &key.public.modulus).to_bytes_padded(key.public.size))
}

/// A multiple of `phi` that is one short of a multiple of `e` gives the
/// inverse.
proof fn lemma_quotient_inverse(e: nat, phi: nat, k: nat, d: nat)
    requires
        e > 1,
        phi > 1,
        k < e,
        (k * phi + 1) % e == 0,
        d == (k * phi + 1) / e,
    ensures
        inverse(e, phi) == d,
        d > 0,
{
    let t = (k * phi + 1) as int;
    lemma_fundamental_div_mod(t, e as int);
    let (kk, pp, ee, dd) = (k as int, phi as int, e as int, d as int);
    assert(ee * dd == kk * pp + 1);
    lemma_fundamental_div_mod_converse(ee * dd, pp, kk, 1);
    assert(dd < pp) by (nonlinear_arith)
        requires
            ee * dd == kk * pp + 1,
            kk <= ee - 1,
            pp > 1,
            ee > 1,
    ;
    assert((e * d) % phi == 1);
    assert(dd > 0) by (nonlinear_arith)
        requires
            ee * dd == kk * pp + 1,
            kk >= 0,
            pp > 1,
            ee > 1,
    ;
    lemma_inverse(e, d, phi);
}

/// An inverse gives such a multiple.
proof fn lemma_inverse_quotient(e: nat, phi: nat) -> (k: nat)
    requires
        e > 1,
        phi > 1,
        inverse(e, phi) != 0,
    ensures
        k < e,
        (k * phi + 1) % e == 0,
{
    reveal(inverse);
    let r = choose|r: nat| is_inverse(e, r, phi);
    assert(is_inverse(e, r, phi));
    let t = (e * r) as int / phi as int;
    lemma_fundamental_div_mod((e * r) as int, phi as int);
    let (rr, pp, ee) = (r as int, phi as int, e as int);
    assert(t >= 0) by (nonlinear_arith)
        requires
            ee * rr == pp * t + 1,
            ee * rr >= 0,
            pp > 1,
    ;
    assert(t < ee) by (nonlinear_arith)
        requires
            ee * rr == pp * t + 1,
            rr <= pp - 1,
            ee > 1,
            pp > 1,
    ;
    assert(t * pp + 1 == rr * ee + 0) by (nonlinear_arith)
        requires
            ee * rr == pp * t + 1,
    ;
    lemma_fundamental_div_mod_converse(t * pp + 1, ee, rr, 0);
    t as nat
}

/// A step further adds `phi` once more.
proof fn lemma_step(e: nat, phi: nat, c: nat, t: nat, k: nat)
    requires
        e > 1,
        c == phi % e,
        t == (k * phi + 1) % e,
    ensures
        ((t + c) % e) == ((k + 1) * phi + 1) % e,
{
    lemma_fundamental_div_mod(phi as int, e as int);
    lemma_fundamental_div_mod((k * phi + 1) as int, e as int);
    lemma_fundamental_div_mod((t + c) as int, e as int);
    let a = phi as int / e as int;
    let b = (k * phi + 1) as int / e as int;
    let f = (t + c) as int / e as int;
    let g = (t + c) as int % e as int;
    let (kk, pp, ee, tt, cc) = (k as int, phi as int, e as int, t as int, c as int);
    assert((kk + 1) * pp + 1 == (a + b + f) * ee + g) by (nonlinear_arith)
        requires
            pp == ee * a + cc,
            kk * pp + 1 == ee * b + tt,
            tt + cc == ee * f + g,
    ;
    lemma_fundamental_div_mod_converse((kk + 1) * pp + 1, ee, a + b + f, g);
}

/// The inverse of a small number, zero when there is none.
fn small_inverse(e: u32, phi: &BigNum) -> (r: BigNum)
    requires
        e > 0,
        phi@ > 1,
    ensures
        r@ == inverse(e as nat, phi@),
{
    if e == 1 {
        proof {
            lemma_small_mod(1, phi@);
            assert((1nat * 1nat) % phi@ == 1);
            lemma_inverse(1, 1, phi@);
        }
        return BigNum::small(1);
    }
    let (_, c) = phi.divide_small(e);
    let mut k: u32 = 0;
    let mut t: u32 = 1;
    proof {
        lemma_small_mod(1, e as nat);
        assert(0 * phi@ + 1 == 1) by (nonlinear_arith);
    }
    while k < e && t != 0
        invariant
            k <= e,
            e > 1,
            phi@ > 1,
            c == phi@ % (e as nat),
            t < e,
            t == (k * phi@ + 1) as nat % (e as nat),
            forall|j: nat| j < k ==> (#[trigger] (j * phi@) + 1) as nat % (e as nat) != 0,
        decreases e - k,
    {
        proof {
            lemma_step(e as nat, phi@, c as nat, t as nat, k as nat);
            assert forall|j: nat| j < k + 1 implies (#[trigger] (j * phi@) + 1) as nat % (e as nat)
                != 0 by {
                if j == k {
                    assert(t != 0);
                }
            }
        }
        t = ((t as u64 + c as u64) % e as u64) as u32;
        k = k + 1;
    }
    if k == e {
        proof {
            if inverse(e as nat, phi@) != 0 {
                let j = lemma_inverse_quotient(e as nat, phi@);
                assert(((j * phi@) + 1) as nat % (e as nat) != 0);
            }
        }
        return BigNum::zero();
    }
    let mult: BigNum = BigNum::small(k).times(phi).add_word(1);
    let (d, _) = mult.divide_small(e);
    proof {
        lemma_quotient_inverse(e as nat, phi@, k as nat, d@);
    }
    d
}

/// How often two divides a number, and what is left.
fn split_twos(n: &BigNum) -> (r: (usize, BigNum))
    ensures
        r.0 == twos(n@),
        r.1@ == odd_part(n@),
{
    let mut left: BigNum = n.copy();
    let mut s: usize = 0;
    if n.is_zero() {
        return (0, left);
    }
    let total: usize = n.bits();
    while s < total
        invariant
            left@ > 0,
            s <= total,
            bit_length(left@) + s == total,
            twos(n@) == s + twos(left@),
            odd_part(n@) == odd_part(left@),
        decreases total - s,
    {
        let (half, odd) = left.divide_small(2);
        if odd == 1 {
            return (s, left);
        }
        left = half;
        s = s + 1;
    }
    (s, left)
}

/// True when a number looks prime to a base.
fn is_strong(c: &BigNum, less: &BigNum, odd: &BigNum, s: usize, base: u32) -> (r: bool)
    requires
        c@ > 1,
        less@ == c@ - 1,
        odd@ == odd_part(less@),
        s == twos(less@),
    ensures
        r == strong(c@, base as nat),
{
    let mut x: BigNum = BigNum::small(base).power_mod(odd, c);
    let ghost start = x@;
    if x.same(&BigNum::small(1)) {
        return true;
    }
    let mut left: usize = s;
    while left > 0
        invariant
            c@ > 1,
            less@ == c@ - 1,
            reaches(start, c@, s as nat) == reaches(x@, c@, left as nat),
            start == power_mod(base as nat, odd_part(less@), c@),
            start != 1,
            s == twos(less@),
        decreases left,
    {
        if x.same(less) {
            return true;
        }
        x = x.times_mod(&x, c);
        left = left - 1;
    }
    false
}

proof fn lemma_small_primes(i: int)
    requires
        0 <= i < 53,
    ensures
        SMALL_PRIMES@[i] >= 3,
{
}

/// True when none of the small primes divides a number.
fn no_small_factor(c: &BigNum) -> (r: bool)
    ensures
        r == (forall|i: int|
            0 <= i < SMALL_PRIMES@.len() ==> c@ % (#[trigger] SMALL_PRIMES@[i] as nat) != 0),
{
    let mut i: usize = 0;
    while i < 53
        invariant
            i <= 53,
            forall|k: int| 0 <= k < i ==> c@ % (#[trigger] SMALL_PRIMES@[k] as nat) != 0,
        decreases 53 - i,
    {
        let p: u32 = SMALL_PRIMES[i];
        proof {
            lemma_small_primes(i as int);
        }
        let (_, rest) = c.divide_small(p);
        if rest == 0 {
            assert(c@ % (SMALL_PRIMES@[i as int] as nat) == 0);
            return false;
        }
        i = i + 1;
    }
    true
}

/// True when a number is taken to be prime.
pub fn is_probably_prime(c: &BigNum) -> (r: bool)
    requires
        c@ > 1,
    ensures
        r == probably_prime(c@),
{
    if !no_small_factor(c) {
        return false;
    }
    let less: BigNum = c.sub_word(1);
    let (s, odd) = split_twos(&less);
    let mut i: usize = 0;
    while i < 12
        invariant
            i <= 12,
            c@ > 1,
            less@ == c@ - 1,
            odd@ == odd_part(less@),
            s == twos(less@),
            forall|k: int| 0 <= k < i ==> strong(c@, #[trigger] BASES@[k] as nat),
        decreases 12 - i,
    {
        if !is_strong(c, &less, &odd, s, BASES[i]) {
            assert(!strong(c@, BASES@[i as int] as nat));
            return false;
        }
        i = i + 1;
    }
    true
}

/// Draw a prime.
fn draw_prime<R: Rng>(rng: &mut R, len: usize, e: u32) -> (r: TpmResult<BigNum>)
    requires
        e > 0,
    ensures
        ({
            let out = prime_drawn(old(rng).model(), len as nat, e as nat, DRAWS as nat);
            &&& final(rng).model() == out.1
            &&& match out.0 {
                Ok(c) => r is Ok && r->Ok_0@ == c && usable(c, e as nat),
                Err(x) => r is Err && r->Err_0 == x,
            }
        }),
{
    let mut left: usize = DRAWS;
    let ghost start = rng.model();
    while left > 0
        invariant
            left <= DRAWS,
            e > 0,
            start == old(rng).model(),
            prime_drawn(start, len as nat, e as nat, DRAWS as nat) == prime_drawn(
                rng.model(),
                len as nat,
                e as nat,
                left as nat,
            ),
        decreases left,
    {
        let mut octets: Vec<u8> = rng.bytes(len)?;
        let ghost drawn = octets@;
        if octets.len() >= 2 {
            let first: u8 = octets[0] % 64 + 192;
            octets.set(0, first);
            let at: usize = octets.len() - 1;
            let last: u8 = octets[at] / 2 * 2 + 1;
            octets.set(at, last);
        }
        assert(octets@ =~= as_candidate(drawn));
        let c: BigNum = BigNum::from_bytes(octets.as_slice());
        if BigNum::small(3).less(&c) {
            let (_, rest) = c.sub_word(1).divide_small(e);
            if rest != 0 && is_probably_prime(&c) {
                return Ok(c);
            }
        }
        left = left - 1;
    }
    Err(TpmRc(rc::NO_RESULT))
}

/// Draw a key.
pub fn generate<R: Rng>(rng: &mut R, key_bits: u16, exponent: u32) -> (r: TpmResult<RsaPrivate>)
    ensures
        ({
            let out = factors_drawn(old(rng).model(), key_bits, exponent);
            &&& final(rng).model() == out.1
            &&& match out.0 {
                Ok((p, q)) => {
                    &&& r is Ok
                    &&& r->Ok_0.wf()
                    &&& r->Ok_0.n() == p * q
                    &&& r->Ok_0.p() == p
                    &&& r->Ok_0.e() == exponent_of(exponent)
                    &&& r->Ok_0.d() == inverse(exponent_of(exponent), totient(p, q))
                    &&& r->Ok_0.len() == key_bits / 8
                },
                Err(x) => r is Err && r->Err_0 == x,
            }
        }),
{
    if !(key_bits == 1024 || key_bits == 2048 || key_bits == 3072 || key_bits == 4096) {
        return Err(TpmRc(rc::VALUE));
    }
    let e: u32 = self::exponent(exponent);
    if e < 3 || e % 2 == 0 {
        return Err(TpmRc(rc::RANGE));
    }
    let len: usize = (key_bits / 16) as usize;
    let p: BigNum = draw_prime(rng, len, e)?;
    let q: BigNum = draw_prime(rng, len, e)?;
    let n: BigNum = p.times(&q);
    if p.same(&q) || n.bits() != key_bits as usize {
        return Err(TpmRc(rc::NO_RESULT));
    }
    let phi: BigNum = p.sub_word(1).times(&q.sub_word(1));
    proof {
        let (pp, qq) = (p@ as int, q@ as int);
        assert((pp - 1) * (qq - 1) > 1) by (nonlinear_arith)
            requires
                pp > 3,
                qq > 3,
        ;
        assert(pp * qq == qq * pp + 0) by (nonlinear_arith);
        lemma_fundamental_div_mod_converse(pp * qq, pp, qq, 0);
        assert(pp * qq > 0) by (nonlinear_arith)
            requires
                pp > 3,
                qq > 3,
        ;
    }
    let d: BigNum = small_inverse(e, &phi);
    if d.is_zero() {
        return Err(TpmRc(rc::NO_RESULT));
    }
    let bits: usize = n.bits();
    let public: RsaPublic = RsaPublic {
        modulus: n,
        exponent: BigNum::small(e),
        size: bits / 8,
        bits,
    };
    Ok(RsaPrivate { public, private: d, prime: p })
}

/// True when a key pair works: what the public exponent hides, the private one
/// brings back.
pub open spec fn pair_works(n: nat, e: nat, d: nat) -> bool {
    power_mod(power_mod(2, e, n), d, n) == 2
}

/// True when a key pair works.
pub fn test_pair(key: &RsaPrivate) -> (r: bool)
    requires
        key.wf(),
    ensures
        r == pair_works(key.n(), key.e(), key.d()),
{
    let two: BigNum = BigNum::small(2);
    let hidden: BigNum = two.power_mod(&key.public.exponent, &key.public.modulus);
    hidden.power_mod(&key.private, &key.public.modulus).same(&two)
}

proof fn lemma_prime_fits(m: RngModel, len: nat, e: nat, tries: nat)
    ensures
        prime_drawn(m, len, e, tries).0 matches Ok(c) ==> 3 < c < octet_weight(len),
    decreases tries,
{
    if tries > 0 {
        lemma_draw_len(m, len);
        match draw(m, len).0 {
            Ok(s) => {
                lemma_number_bound(as_candidate(s));
            },
            Err(_) => {},
        }
        lemma_prime_fits(draw(m, len).1, len, e, (tries - 1) as nat);
    }
}

/// The factors of a new key go into their octets, and give the private exponent
/// that goes with them.
pub proof fn lemma_factors_drawn(m: RngModel, bits: u16, exponent: u32)
    ensures
        match factors_drawn(m, bits, exponent).0 {
            Ok((p, q)) => {
                &&& number_of(octets_of(p, (bits / 16) as nat)) == p
                &&& number_of(octets_of(p * q, (bits / 8) as nat)) == p * q
                &&& private_of(p * q, exponent_of(exponent), p) != 0
            },
            Err(_) => true,
        },
{
    let e = exponent_of(exponent);
    let len = (bits / 16) as nat;
    lemma_prime_fits(m, len, e, DRAWS as nat);
    lemma_prime_fits(prime_drawn(m, len, e, DRAWS as nat).1, len, e, DRAWS as nat);
    match factors_drawn(m, bits, exponent).0 {
        Ok((p, q)) => {
            let w = octet_weight(len);
            lemma_octets_read_back(p, len);
            lemma_octet_weights(len, len);
            assert(p * q < w * w) by (nonlinear_arith)
                requires
                    p < w,
                    q < w,
                    p > 0,
            ;
            assert(len + len == (bits / 8) as nat);
            lemma_octets_read_back(p * q, (bits / 8) as nat);
            assert(p * q > 0 && (p * q) % p == 0 && (p * q) / p == q) by (nonlinear_arith)
                requires
                    p > 3,
                    q > 3,
            ;
            assert(totient(p, q) > 1) by (nonlinear_arith)
                requires
                    p > 3,
                    q > 3,
                    totient(p, q) == ((p - 1) as nat) * ((q - 1) as nat),
            ;
        },
        Err(_) => {},
    }
}

} // verus!
