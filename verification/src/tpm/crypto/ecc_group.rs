//! What the group of a curve gives: a signature is accepted under the public key,
//! and two keys that know each other's public point share a point.

use vstd::arithmetic::div_mod::{
    lemma_fundamental_div_mod, lemma_mod_multiples_vanish, lemma_small_mod,
};
use vstd::prelude::*;

use super::bn::{inverse, lemma_octets_read_back, number_of, octets_of};
use super::ecc::{
    added, base_multiplied, curve_of, doubled, ecdsa_verifies, lemma_field_fits,
    lemma_scalar_in_range, multiplied, on_curve, scalar_drawn, schnorr_verifies, shared,
    signature_of, signed, CurveModel, Signing, DRAWS,
};
use super::rand::RngModel;
use super::rsa_inverse::{is_prime, lemma_inverse_of_prime};

verus! {

/// True of a curve whose generator makes a group of prime order: adding two of
/// its multiples leads to the multiple by the sum, the order leads to the point at
/// infinity, and every other multiple is a point of the curve.
///
/// It is a premise of the laws on ECC keys, as the primes are of those on RSA keys:
/// that the order of a curve is prime and that adding points is associative is
/// proved nowhere.
pub open spec fn is_group(c: CurveModel) -> bool {
    &&& is_prime(c.n)
    &&& base_multiplied(c, c.n) is None
    &&& forall|a: nat, b: nat| #[trigger]
        added(c, base_multiplied(c, a), base_multiplied(c, b)) == base_multiplied(c, a + b)
    &&& forall|k: nat|
        match #[trigger] base_multiplied(c, k) {
            Some((x, y)) => on_curve(c, x, y),
            None => true,
        }
}

/// A multiple of a multiple is the multiple by the product.
proof fn lemma_multiple_of_multiple(c: CurveModel, k: nat, a: nat)
    requires
        is_group(c),
    ensures
        multiplied(c, k, base_multiplied(c, a)) == base_multiplied(c, k * a),
    decreases k,
{
    let q = base_multiplied(c, a);
    if k == 0 {
        assert(0 * a == 0);
    } else {
        let h = k / 2;
        lemma_multiple_of_multiple(c, h, a);
        let half = base_multiplied(c, h * a);
        assert(doubled(c, half) == added(c, half, half));
        let twice = base_multiplied(c, h * a + h * a);
        if k % 2 == 1 {
            assert(h * a + h * a + a == k * a) by (nonlinear_arith)
                requires
                    k == 2 * h + 1,
            ;
            assert(added(c, twice, q) == base_multiplied(c, h * a + h * a + a));
        } else {
            assert(h * a + h * a == k * a) by (nonlinear_arith)
                requires
                    k == 2 * h,
            ;
        }
    }
}

proof fn lemma_nothing_multiplied(c: CurveModel, k: nat)
    ensures
        multiplied(c, k, None) is None,
    decreases k,
{
    if k > 0 {
        lemma_nothing_multiplied(c, k / 2);
    }
}

/// Only the remainder of a scalar by the order matters.
proof fn lemma_scalar_wraps(c: CurveModel, k: nat)
    requires
        is_group(c),
    ensures
        base_multiplied(c, k) == base_multiplied(c, k % c.n),
{
    let r = k % c.n;
    let t = k / c.n;
    lemma_fundamental_div_mod(k as int, c.n as int);
    assert(k == r + t * c.n) by (nonlinear_arith)
        requires
            k == c.n * t + r,
    ;
    lemma_multiple_of_multiple(c, t, c.n);
    lemma_nothing_multiplied(c, t);
    let rest = base_multiplied(c, t * c.n);
    assert(rest is None);
    assert(added(c, base_multiplied(c, r), rest) == base_multiplied(c, r + t * c.n));
}

/// The scalars of an ECDSA verification add up to the nonce.
proof fn lemma_ecdsa_scalars(n: nat, d: nat, e: nat, k: nat, r: nat, s: nat)
    requires
        is_prime(n),
        0 < k < n,
        0 < s < n,
        s == (inverse(k, n) * ((e + r * d) % n)) % n,
    ensures
        ((e * inverse(s, n)) % n + ((r * inverse(s, n)) % n) * d) % n == k,
{
    lemma_inverse_of_prime(n, k);
    lemma_inverse_of_prime(n, s);
    let z = n as int;
    let i = inverse(k, n) as int;
    let w = inverse(s, n) as int;
    let t = ((e + r * d) % n) as int;
    let u1 = ((e * w) % z) as int;
    let u2 = ((r * w) % z) as int;
    lemma_fundamental_div_mod(e * w, z);
    lemma_fundamental_div_mod(r * w, z);
    lemma_fundamental_div_mod((e + r * d) as int, z);
    lemma_fundamental_div_mod(i * t, z);
    lemma_fundamental_div_mod(k * i, z);
    lemma_fundamental_div_mod(s * w, z);
    let q1 = (e * w) / z;
    let q2 = (r * w) / z;
    let q3 = ((e + r * d) as int) / z;
    let q4 = (i * t) / z;
    let q5 = (k * i) / z;
    let q6 = (s * w) / z;
    assert(u1 + u2 * d == w * (e + r * d) - z * (q1 + q2 * d)) by (nonlinear_arith)
        requires
            u1 == e * w - z * q1,
            u2 == r * w - z * q2,
    ;
    assert(w * (e + r * d) == w * t + z * (w * q3)) by (nonlinear_arith)
        requires
            e + r * d == z * q3 + t,
    ;
    assert(k * s == t + z * (q5 * t - k * q4)) by (nonlinear_arith)
        requires
            s == i * t - z * q4,
            k * i == z * q5 + 1,
    ;
    let v = q5 * t - k * q4;
    assert(w * t == k + z * (k * q6 - w * v)) by (nonlinear_arith)
        requires
            k * s == t + z * v,
            s * w == z * q6 + 1,
    ;
    let m = (k * q6 - w * v) + w * q3 - (q1 + q2 * d);
    assert(u1 + u2 * d == z * m + k) by (nonlinear_arith)
        requires
            u1 + u2 * d == w * (e + r * d) - z * (q1 + q2 * d),
            w * (e + r * d) == w * t + z * (w * q3),
            w * t == k + z * (k * q6 - w * v),
            m == (k * q6 - w * v) + w * q3 - (q1 + q2 * d),
    ;
    lemma_mod_multiples_vanish(m, k as int, z);
    lemma_small_mod(k, n);
}

/// The scalars of a Schnorr verification add up to the nonce.
proof fn lemma_schnorr_scalars(n: nat, d: nat, k: nat, r: nat)
    requires
        0 < k < n,
        r < n,
    ensures
        ((k + r * d) % n + ((n - r) as nat) * d) % n == k,
{
    let z = n as int;
    let s = ((k + r * d) % n) as int;
    let q = ((k + r * d) as int) / z;
    lemma_fundamental_div_mod((k + r * d) as int, z);
    assert(s + (z - r) * d == z * (d - q) + k) by (nonlinear_arith)
        requires
            k + r * d == z * q + s,
    ;
    lemma_mod_multiples_vanish(d - q, k as int, z);
    lemma_small_mod(k, n);
}

/// True when `(r, s)` is a signature of that under the public key.
pub open spec fn signature_verifies(c: CurveModel, x: nat, y: nat, what: Signing, r: nat, s: nat)
    -> bool {
    match what {
        Signing::Ecdsa { e } => ecdsa_verifies(c, x, y, e, r, s),
        Signing::Schnorr { hash_alg, digest } => schnorr_verifies(
            c,
            x,
            y,
            hash_alg,
            digest,
            r,
            s,
        ),
    }
}

/// A signature with any nonce verifies under the public point.
proof fn lemma_signature_verifies(c: CurveModel, d: nat, x: nat, y: nat, what: Signing, k: nat)
    requires
        is_group(c),
        base_multiplied(c, d) == Some((x, y)),
        0 < k < c.n,
    ensures
        signature_of(c, d, what, k) matches Some((r, s)) ==> signature_verifies(
            c,
            x,
            y,
            what,
            r,
            s,
        ),
{
    match signature_of(c, d, what, k) {
        None => {},
        Some((r, s)) => {
            match what {
                Signing::Ecdsa { e } => {
                    let u1 = (e * inverse(s, c.n)) % c.n;
                    let u2 = (r * inverse(s, c.n)) % c.n;
                    lemma_ecdsa_scalars(c.n, d, e, k, r, s);
                    lemma_multiple_of_multiple(c, u2, d);
                    assert(added(c, base_multiplied(c, u1), base_multiplied(c, u2 * d))
                        == base_multiplied(c, u1 + u2 * d));
                    lemma_scalar_wraps(c, u1 + u2 * d);
                },
                Signing::Schnorr { hash_alg, digest } => {
                    let u2 = (c.n - r) as nat;
                    lemma_schnorr_scalars(c.n, d, k, r);
                    lemma_multiple_of_multiple(c, u2, d);
                    assert(added(c, base_multiplied(c, s), base_multiplied(c, u2 * d))
                        == base_multiplied(c, s + u2 * d));
                    lemma_scalar_wraps(c, s + u2 * d);
                },
            }
        },
    }
}

/// What an ECC key signed verifies under its public point, by either scheme and
/// whatever nonce was drawn, on a curve that is a group.
pub proof fn law_an_ecc_signature_verifies(
    c: CurveModel,
    d: nat,
    x: nat,
    y: nat,
    what: Signing,
    m: RngModel,
    tries: nat,
)
    requires
        is_group(c),
        base_multiplied(c, d) == Some((x, y)),
    ensures
        signed(c, d, what, m, tries).0 matches Ok((r, s)) ==> signature_verifies(
            c,
            x,
            y,
            what,
            r,
            s,
        ),
    decreases tries,
{
    if tries > 0 {
        lemma_scalar_in_range(c, m, DRAWS as nat);
        match scalar_drawn(c, m, DRAWS as nat) {
            (Ok(k), left) => {
                lemma_signature_verifies(c, d, x, y, what, k);
                law_an_ecc_signature_verifies(c, d, x, y, what, left, (tries - 1) as nat);
            },
            _ => {},
        }
    }
}

/// The two parts of a signature that verifies are read back from the octets they
/// are written in.
pub proof fn lemma_parts_read_back(id: u16, x: nat, y: nat, what: Signing, r: nat, s: nat)
    requires
        signature_verifies(curve_of(id), x, y, what, r, s),
    ensures
        number_of(octets_of(r, curve_of(id).size)) == r,
        number_of(octets_of(s, curve_of(id).size)) == s,
{
    lemma_field_fits(id);
    lemma_octets_read_back(r, curve_of(id).size);
    lemma_octets_read_back(s, curve_of(id).size);
}

/// Two keys share the same point, each with its own private half and the other's
/// public half, on a curve that is a group.
pub proof fn law_two_keys_share_a_point(c: CurveModel, d: nat, e: nat, q: (nat, nat), r: (nat, nat))
    requires
        is_group(c),
        base_multiplied(c, d) == Some(q),
        base_multiplied(c, e) == Some(r),
    ensures
        shared(c, d, r.0, r.1) == shared(c, e, q.0, q.1),
        shared(c, d, r.0, r.1) == base_multiplied(c, d * e),
{
    lemma_multiple_of_multiple(c, d, e);
    lemma_multiple_of_multiple(c, e, d);
    assert(d * e == e * d) by (nonlinear_arith);
}

} // verus!
