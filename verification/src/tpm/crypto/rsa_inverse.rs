//! Raising to one exponent of an RSA key undoes raising to the other.

use vstd::arithmetic::div_mod::{
    lemma_fundamental_div_mod, lemma_fundamental_div_mod_converse, lemma_mod_multiples_basic,
    lemma_mul_mod_noop, lemma_small_mod,
};
use vstd::arithmetic::power::{
    lemma0_pow, lemma_pow1, lemma_pow_adds, lemma_pow_mod_noop, lemma_pow_multiplies, pow,
};
use vstd::prelude::*;

use super::bn::{
    inverse, is_inverse, lemma_inverse, lemma_octet_length_fits, lemma_octets_read_back, number_of,
    octet_length, octet_weight, octets_of, power_mod,
};
use super::rsa::{private_of, raised, totient};
use crate::tpm::error::TpmRc;

verus! {

/// True for a prime.
pub open spec fn is_prime(p: nat) -> bool {
    p > 1 && forall|d: nat| 1 < d < p ==> #[trigger] (p % d) != 0
}

/// What is a multiple stays one when it is multiplied.
proof fn lemma_multiple(p: int, x: int, c: int)
    requires
        p > 0,
        x % p == 0,
    ensures
        (x * c) % p == 0,
{
    lemma_fundamental_div_mod(x, p);
    let k = x / p;
    assert(x * c == (k * c) * p) by (nonlinear_arith)
        requires
            x == p * k,
    ;
    lemma_mod_multiples_basic(k * c, p);
}

/// The sum and the difference of two multiples are multiples.
proof fn lemma_multiples(p: int, x: int, y: int)
    requires
        p > 0,
        x % p == 0,
        y % p == 0,
    ensures
        (x + y) % p == 0,
        (x - y) % p == 0,
{
    lemma_fundamental_div_mod(x, p);
    lemma_fundamental_div_mod(y, p);
    let a = x / p;
    let b = y / p;
    assert(x + y == (a + b) * p && x - y == (a - b) * p) by (nonlinear_arith)
        requires
            x == p * a,
            y == p * b,
    ;
    lemma_mod_multiples_basic(a + b, p);
    lemma_mod_multiples_basic(a - b, p);
}

/// A prime that divides a product of two numbers, one of them smaller than the
/// prime, divides the other.
proof fn lemma_small_factor(p: nat, a: nat, b: int)
    requires
        is_prime(p),
        0 < a < p,
        (a * b) % (p as int) == 0,
    ensures
        b % (p as int) == 0,
    decreases a,
{
    if a == 1 {
        assert(1 * b == b);
    } else {
        let t = (p / a) as int;
        let s = p % a;
        lemma_fundamental_div_mod(p as int, a as int);
        assert(s > 0);
        assert(s * b == p * b - (a * b) * t) by (nonlinear_arith)
            requires
                p == a * t + s,
        ;
        lemma_mod_multiples_basic(b, p as int);
        assert((p * b) % (p as int) == 0) by {
            assert(p * b == b * p) by (nonlinear_arith);
        }
        lemma_multiple(p as int, a * b, t);
        lemma_multiples(p as int, p * b, (a * b) * t);
        lemma_small_factor(p, s, b);
    }
}

/// A prime that divides a product divides one of the factors.
proof fn lemma_factor(p: nat, a: nat, b: int)
    requires
        is_prime(p),
        a % p != 0,
        (a * b) % (p as int) == 0,
    ensures
        b % (p as int) == 0,
{
    let r = a % p;
    let t = (a / p) as int;
    lemma_fundamental_div_mod(a as int, p as int);
    assert(r * b == a * b - (t * b) * p) by (nonlinear_arith)
        requires
            a == p * t + r,
    ;
    lemma_mod_multiples_basic(t * b, p as int);
    lemma_multiples(p as int, a * b, (t * b) * p);
    lemma_small_factor(p, r, b);
}

/// In how many ways `k` of `n` can be chosen.
spec fn ways(n: nat, k: nat) -> nat
    decreases n,
{
    if k == 0 {
        1
    } else if n == 0 {
        0
    } else {
        ways((n - 1) as nat, (k - 1) as nat) + ways((n - 1) as nat, k)
    }
}

/// More than there are cannot be chosen, and all in one way.
proof fn lemma_ways_ends(n: nat, k: nat)
    requires
        k >= n,
    ensures
        k > n ==> ways(n, k) == 0,
        k == n ==> ways(n, k) == 1,
    decreases n,
{
    if n > 0 {
        lemma_ways_ends((n - 1) as nat, (k - 1) as nat);
        lemma_ways_ends((n - 1) as nat, k);
    }
}

/// Choosing `k` and one of them is choosing one and the others.
proof fn lemma_ways_times(n: nat, k: nat)
    requires
        n > 0,
        k > 0,
    ensures
        k * ways(n, k) == n * ways((n - 1) as nat, (k - 1) as nat),
    decreases n,
{
    let a = ways((n - 1) as nat, (k - 1) as nat) as int;
    let b = ways((n - 1) as nat, k) as int;
    if n == 1 {
        if k > 1 {
            assert(a == 0 && b == 0);
        } else {
            assert(a == 1 && b == 0);
        }
        assert(k * (a + b) == n * a) by (nonlinear_arith)
            requires
                n == 1,
                b == 0,
                a == 0 || (a == 1 && k == 1),
        ;
    } else {
        lemma_ways_times((n - 1) as nat, k);
        let d = ways((n - 2) as nat, (k - 1) as nat) as int;
        if k == 1 {
            assert(a == 1 && d == 1);
            assert(k * (a + b) == n * a) by (nonlinear_arith)
                requires
                    k == 1,
                    a == 1,
                    d == 1,
                    k * b == (n - 1) * d,
            ;
        } else {
            lemma_ways_times((n - 1) as nat, (k - 1) as nat);
            let c = ways((n - 2) as nat, (k - 2) as nat) as int;
            assert(k * (a + b) == n * a) by (nonlinear_arith)
                requires
                    (k - 1) * a == (n - 1) * c,
                    k * b == (n - 1) * d,
                    a == c + d,
            ;
        }
    }
}

/// The first terms of a sum raised to a power.
spec fn terms(n: nat, m: nat, x: int) -> int
    decreases m,
{
    ways(n, m) * pow(x, m) + (if m == 0 {
        0
    } else {
        terms(n, (m - 1) as nat, x)
    })
}

/// The terms of one power come from those of the power before.
proof fn lemma_terms(n: nat, m: nat, x: int)
    ensures
        terms(n + 1, m, x) == terms(n, m, x) + (if m == 0 {
            0
        } else {
            x * terms(n, (m - 1) as nat, x)
        }),
    decreases m,
{
    reveal(pow);
    if m > 0 {
        let k = (m - 1) as nat;
        lemma_terms(n, k, x);
        let a = ways(n, k) as int;
        let b = ways(n, m) as int;
        let y = pow(x, k);
        let rest = if k == 0 {
            0
        } else {
            terms(n, (k - 1) as nat, x)
        };
        assert(ways(n + 1, m) == a + b);
        assert(pow(x, m) == x * y);
        assert((a + b) * (x * y) + x * rest == b * (x * y) + x * (a * y + rest))
            by (nonlinear_arith);
        assert(k == 0 ==> x * rest == 0) by (nonlinear_arith)
            requires
                k == 0 ==> rest == 0,
        ;
    }
}

/// A sum of a number and one, raised to a power, is the sum of its terms.
proof fn lemma_binomial(n: nat, x: int)
    ensures
        pow(x + 1, n) == terms(n, n, x),
    decreases n,
{
    reveal(pow);
    if n > 0 {
        let k = (n - 1) as nat;
        lemma_binomial(k, x);
        lemma_terms(k, n, x);
        lemma_ways_ends(k, n);
        let s = terms(k, k, x);
        let y = pow(x, n);
        assert(0 * y == 0);
        assert((x + 1) * s == s + x * s) by (nonlinear_arith);
    }
}

/// All but the last term of the power of a prime leave one.
proof fn lemma_terms_of_prime(p: nat, m: nat, x: int)
    requires
        is_prime(p),
        m < p,
    ensures
        (terms(p, m, x) - 1) % (p as int) == 0,
    decreases m,
{
    reveal(pow);
    if m > 0 {
        let k = (m - 1) as nat;
        lemma_terms_of_prime(p, k, x);
        lemma_ways_times(p, m);
        let c = ways((p - 1) as nat, k) as int;
        assert(m * ways(p, m) == c * p) by (nonlinear_arith)
            requires
                m * ways(p, m) == p * c,
        ;
        lemma_mod_multiples_basic(c, p as int);
        lemma_small_factor(p, m, ways(p, m) as int);
        lemma_multiple(p as int, ways(p, m) as int, pow(x, m));
        lemma_multiples(p as int, ways(p, m) * pow(x, m), terms(p, k, x) - 1);
    } else {
        assert(terms(p, 0, x) == 1);
        lemma_small_mod(0, p);
    }
}

/// A number raised to a prime leaves what the number leaves.
proof fn lemma_power_of_prime(p: nat, x: nat)
    requires
        is_prime(p),
    ensures
        (pow(x as int, p) - x) % (p as int) == 0,
    decreases x,
{
    if x == 0 {
        lemma0_pow(p);
        lemma_small_mod(0, p);
    } else {
        let y = (x - 1) as nat;
        lemma_power_of_prime(p, y);
        lemma_binomial(p, y as int);
        lemma_ways_ends(p, p);
        lemma_terms_of_prime(p, (p - 1) as nat, y as int);
        let rest = terms(p, (p - 1) as nat, y as int);
        assert(1 * pow(y as int, p) == pow(y as int, p));
        assert(pow(x as int, p) - x == (pow(y as int, p) - y) + (rest - 1));
        lemma_multiples(p as int, pow(y as int, p) - y, rest - 1);
    }
}

/// One more than a multiple of one less than a prime changes nothing.
proof fn lemma_cycle(p: nat, x: nat, j: nat)
    requires
        is_prime(p),
    ensures
        (pow(x as int, 1 + j * ((p - 1) as nat)) - x) % (p as int) == 0,
    decreases j,
{
    let b = x as int;
    let step = (p - 1) as nat;
    if j == 0 {
        assert(0 * step == 0);
        lemma_pow1(b);
        lemma_small_mod(0, p);
    } else {
        let i = (j - 1) as nat;
        lemma_cycle(p, x, i);
        let e = 1 + i * step;
        assert(1 + j * step == e + step) by (nonlinear_arith)
            requires
                e == 1 + i * step,
                j == i + 1,
        ;
        lemma_pow_adds(b, e, step);
        lemma_pow_adds(b, 1, step);
        lemma_pow1(b);
        lemma_power_of_prime(p, x);
        let y = pow(b, e);
        let z = pow(b, step);
        assert(1 + step == p);
        assert(y * z - b == (y - b) * z + (b * z - b)) by (nonlinear_arith);
        lemma_multiple(p as int, y - b, z);
        lemma_multiples(p as int, (y - b) * z, b * z - b);
    }
}

/// What two primes divide, their product divides.
proof fn lemma_both(p: nat, q: nat, y: int)
    requires
        is_prime(p),
        is_prime(q),
        p != q,
        y % (p as int) == 0,
        y % (q as int) == 0,
    ensures
        y % ((p * q) as int) == 0,
{
    let z = y / (p as int);
    lemma_fundamental_div_mod(y, p as int);
    if p < q {
        lemma_small_mod(p, q);
    }
    assert(p % q != 0);
    lemma_factor(q, p, z);
    let w = z / (q as int);
    lemma_fundamental_div_mod(z, q as int);
    assert(y == w * (p * q)) by (nonlinear_arith)
        requires
            y == p * z,
            z == q * w,
    ;
    assert(p * q > 0) by (nonlinear_arith)
        requires
            p > 1,
            q > 1,
    ;
    lemma_mod_multiples_basic(w, (p * q) as int);
}

/// Raising by squaring and multiplying is raising.
proof fn lemma_power_mod(b: nat, e: nat, m: nat)
    requires
        m > 0,
    ensures
        power_mod(b, e, m) == pow(b as int, e) % (m as int),
    decreases e,
{
    let x = b as int;
    let n = m as int;
    if e == 0 {
        reveal(pow);
    } else {
        let k = e / 2;
        lemma_power_mod(b, k, m);
        let y = pow(x, k);
        lemma_mul_mod_noop(y, y, n);
        lemma_pow_adds(x, k, k);
        if e % 2 == 1 {
            assert(k + k + 1 == e);
            lemma_pow_adds(x, k + k, 1);
            lemma_pow1(x);
            lemma_mul_mod_noop(y * y, x, n);
            lemma_mul_mod_noop((y * y) % n, x, n);
            assert(((y * y) % n) % n == (y * y) % n) by {
                vstd::arithmetic::div_mod::lemma_mod_twice(y * y, n);
            }
        } else {
            assert(k + k == e);
        }
    }
}

/// Raising to one exponent of a key and then to the other gives the number
/// back, when the factors of the modulus are two primes.
pub proof fn law_one_exponent_undoes_the_other(p: nat, q: nat, e: nat, d: nat, m: nat)
    requires
        is_prime(p),
        is_prime(q),
        p != q,
        (e * d) % totient(p, q) == 1,
        m < p * q,
    ensures
        power_mod(power_mod(m, e, p * q), d, p * q) == m,
{
    let n = p * q;
    let x = m as int;
    let phi = totient(p, q);
    assert(phi > 0) by (nonlinear_arith)
        requires
            p > 1,
            q > 1,
            phi == ((p - 1) as nat) * ((q - 1) as nat),
    ;
    let k = (e * d) / phi;
    lemma_fundamental_div_mod((e * d) as int, phi as int);
    let i = k * ((q - 1) as nat);
    let j = k * ((p - 1) as nat);
    assert(e * d == 1 + i * ((p - 1) as nat) && e * d == 1 + j * ((q - 1) as nat))
        by (nonlinear_arith)
        requires
            e * d == phi * k + 1,
            phi == ((p - 1) as nat) * ((q - 1) as nat),
            i == k * ((q - 1) as nat),
            j == k * ((p - 1) as nat),
    ;
    lemma_cycle(p, m, i);
    lemma_cycle(q, m, j);
    let y = pow(x, e * d);
    lemma_both(p, q, y - x);
    lemma_power_mod(m, e, n);
    lemma_power_mod(power_mod(m, e, n), d, n);
    lemma_pow_mod_noop(pow(x, e), d, n as int);
    lemma_pow_multiplies(x, e, d);
    let t = (y - x) / (n as int);
    lemma_fundamental_div_mod(y - x, n as int);
    assert(y == t * n + x) by (nonlinear_arith)
        requires
            y - x == n * t,
    ;
    lemma_fundamental_div_mod_converse(y, n as int, t, x);
}

/// Octets are what their number is written as.
proof fn lemma_written_back(s: Seq<u8>)
    ensures
        octets_of(number_of(s), s.len()) == s,
    decreases s.len(),
{
    if s.len() > 0 {
        lemma_written_back(s.drop_last());
        let n = number_of(s);
        assert(n / 256 == number_of(s.drop_last()));
        assert(octets_of(n, s.len()) =~= s);
    } else {
        assert(octets_of(number_of(s), 0) =~= s);
    }
}

/// True when a modulus is the product of a prime and another.
pub open spec fn of_primes(n: nat, p: nat) -> bool {
    is_prime(p) && is_prime(n / p) && p != n / p && n == p * (n / p)
}

/// The two exponents of a key undo each other.
proof fn lemma_exponents(n: nat, e: nat, p: nat)
    requires
        of_primes(n, p),
        private_of(n, e, p) != 0,
    ensures
        (e * private_of(n, e, p)) % totient(p, n / p) == 1,
{
    reveal(inverse);
}

/// A block that was raised to one exponent of a key comes back when it is
/// raised to the other, whichever of the two comes first.
pub proof fn law_a_raised_block_comes_back(n: nat, e: nat, p: nat, block: Seq<u8>)
    requires
        of_primes(n, p),
        private_of(n, e, p) != 0,
        block.len() == octet_length(n),
    ensures
        ({
            let size = octet_length(n);
            let d = private_of(n, e, p);
            &&& raised(n, e, size, block) matches Ok(v) ==> raised(n, d, size, v) == Ok::<
                Seq<u8>,
                TpmRc,
            >(block)
            &&& raised(n, d, size, block) matches Ok(v) ==> raised(n, e, size, v) == Ok::<
                Seq<u8>,
                TpmRc,
            >(block)
        }),
{
    let d = private_of(n, e, p);
    lemma_exponents(n, e, p);
    lemma_octet_length_fits(n);
    assert(d * e == e * d) by (nonlinear_arith);
    lemma_raised(n, e, d, p, block);
    lemma_raised(n, d, e, p, block);
}

proof fn lemma_raised(n: nat, e: nat, d: nat, p: nat, block: Seq<u8>)
    requires
        of_primes(n, p),
        (e * d) % totient(p, n / p) == 1,
        n < octet_weight(octet_length(n)),
        block.len() == octet_length(n),
    ensures
        raised(n, e, octet_length(n), block) matches Ok(v) ==> raised(n, d, octet_length(n), v)
            == Ok::<Seq<u8>, TpmRc>(block),
{
    let m = number_of(block);
    if m < n {
        law_one_exponent_undoes_the_other(p, n / p, e, d, m);
        lemma_power_mod(m, e, n);
        lemma_octets_read_back(power_mod(m, e, n), octet_length(n));
        lemma_written_back(block);
    }
}

/// Every number below a prime but zero has an inverse modulo the prime.
pub proof fn lemma_inverse_of_prime(p: nat, x: nat)
    requires
        is_prime(p),
        0 < x < p,
    ensures
        is_inverse(x, inverse(x, p), p),
{
    reveal(pow);
    let z = x as int;
    let n = p as int;
    let a = pow(z, (p - 1) as nat);
    let b = pow(z, (p - 2) as nat);
    assert(pow(z, p) == z * a);
    assert(a == z * b);
    lemma_power_of_prime(p, x);
    assert(z * a - z == z * (a - 1)) by (nonlinear_arith);
    lemma_small_mod(x, p);
    lemma_factor(p, x, a - 1);
    let r = b % n;
    lemma_fundamental_div_mod(a - 1, n);
    let t = (a - 1) / n;
    assert(a == t * n + 1) by (nonlinear_arith)
        requires
            a - 1 == n * t,
    ;
    lemma_fundamental_div_mod_converse(a, n, t, 1);
    lemma_mul_mod_noop(z, b, n);
    lemma_small_mod(x, p);
    assert((z * r) % n == 1);
    assert(is_inverse(x, r as nat, p));
    lemma_inverse(x, r as nat, p);
}

} // verus!
