//! Deterministic random bit generators.

use vstd::prelude::*;

use super::hash::{digest_size, size_of, supported};
use super::hmac::{hmac, hmac_of, lemma_hmac_len};
use crate::tpm::constants::{alg, rc};
use crate::tpm::error::{TpmRc, TpmResult};
use crate::util::bytes::{filled, to_vec};

verus! {

/// Requests a generator answers before it has to be reseeded.
pub const RESEED_INTERVAL: u64 = 0x1_0000_0000_0000;

/// What a generator will produce.
pub enum RngModel {
    /// The working state of an HMAC DRBG.
    Hmac { hash_alg: u16, key: Seq<u8>, value: Seq<u8>, counter: u64 },
    /// A fixed run of octets, read from the front.
    Fixed { octets: Seq<u8>, used: nat },
}

/// The key of an HMAC DRBG after `data` has been mixed in.
pub open spec fn mixed_key(h: u16, key: Seq<u8>, value: Seq<u8>, data: Seq<u8>) -> Seq<u8> {
    let k1 = hmac_of(h, key, value + seq![0u8] + data);
    if data.len() == 0 {
        k1
    } else {
        hmac_of(h, k1, hmac_of(h, k1, value) + seq![1u8] + data)
    }
}

/// The value of an HMAC DRBG after `data` has been mixed in.
pub open spec fn mixed_value(h: u16, key: Seq<u8>, value: Seq<u8>, data: Seq<u8>) -> Seq<u8> {
    let k1 = hmac_of(h, key, value + seq![0u8] + data);
    let v1 = hmac_of(h, k1, value);
    if data.len() == 0 {
        v1
    } else {
        hmac_of(h, mixed_key(h, key, value, data), v1)
    }
}

/// The value of an HMAC DRBG after `n` output blocks.
pub open spec fn stepped(h: u16, key: Seq<u8>, value: Seq<u8>, n: nat) -> Seq<u8>
    decreases n,
{
    if n == 0 {
        value
    } else {
        hmac_of(h, key, stepped(h, key, value, (n - 1) as nat))
    }
}

/// The first `n` output blocks of an HMAC DRBG.
pub open spec fn output(h: u16, key: Seq<u8>, value: Seq<u8>, n: nat) -> Seq<u8>
    decreases n,
{
    if n == 0 {
        Seq::empty()
    } else {
        output(h, key, value, (n - 1) as nat) + stepped(h, key, value, n)
    }
}

/// Blocks of `size` octets needed for `want` octets.
pub open spec fn blocks_needed(want: nat, size: nat) -> nat {
    if size == 0 {
        0
    } else {
        ((want + size - 1) / (size as int)) as nat
    }
}

/// Drawing `n` octets: what comes out and what the generator is left with.
#[verifier::opaque]
pub open spec fn draw(m: RngModel, n: nat) -> (TpmResult<Seq<u8>>, RngModel) {
    match m {
        RngModel::Hmac { hash_alg, key, value, counter } => if !supported(hash_alg) || counter
            > RESEED_INTERVAL {
            (Err(TpmRc(rc::FAILURE)), m)
        } else {
            let blocks = blocks_needed(n, size_of(hash_alg));
            let last = stepped(hash_alg, key, value, blocks);
            (
                Ok(output(hash_alg, key, value, blocks).take(n as int)),
                RngModel::Hmac {
                    hash_alg,
                    key: mixed_key(hash_alg, key, last, Seq::empty()),
                    value: mixed_value(hash_alg, key, last, Seq::empty()),
                    counter: (counter + 1) as u64,
                },
            )
        },
        RngModel::Fixed { octets, used } => if used + n > octets.len() {
            (Err(TpmRc(rc::NO_RESULT)), m)
        } else {
            (
                Ok(octets.subrange(used as int, (used + n) as int)),
                RngModel::Fixed { octets, used: used + n },
            )
        },
    }
}

/// A source of octets.
pub trait Rng {
    /// What the generator will produce.
    spec fn model(&self) -> RngModel;

    /// Draw `n` octets.
    fn bytes(&mut self, n: usize) -> (r: TpmResult<Vec<u8>>)
        ensures
            final(self).model() == draw(old(self).model(), n as nat).1,
            match draw(old(self).model(), n as nat).0 {
                Ok(v) => r is Ok && r->Ok_0@ == v && v.len() == n,
                Err(e) => r is Err && r->Err_0 == e,
            },
    ;
}

/// An HMAC DRBG.
#[derive(Debug)]
pub struct Drbg {
    hash_alg: u16,
    key: Vec<u8>,
    value: Vec<u8>,
    reseed_counter: u64,
}

proof fn lemma_output_len(h: u16, key: Seq<u8>, value: Seq<u8>, n: nat)
    ensures
        output(h, key, value, n).len() == n * size_of(h),
    decreases n,
{
    broadcast use lemma_hmac_len;

    if n > 0 {
        lemma_output_len(h, key, value, (n - 1) as nat);
        let s = size_of(h);
        assert((n - 1) * s + s == n * s) by (nonlinear_arith);
    }
}

impl Drbg {
    /// The hash the generator is built on.
    pub closed spec fn spec_hash(&self) -> u16 {
        self.hash_alg
    }

    /// The working key.
    pub closed spec fn spec_key(&self) -> Seq<u8> {
        self.key@
    }

    /// The working value.
    pub closed spec fn spec_value(&self) -> Seq<u8> {
        self.value@
    }

    /// Requests since the last seeding.
    pub closed spec fn spec_counter(&self) -> u64 {
        self.reseed_counter
    }

    /// Mix `data` into the working state.
    fn mix(&mut self, data: &[u8]) -> (r: TpmResult<()>)
        ensures
            r is Ok <==> supported(old(self).hash_alg),
            r is Err ==> r->Err_0 == TpmRc(rc::FAILURE) && *final(self) == *old(self),
            r is Ok ==> final(self).hash_alg == old(self).hash_alg && final(self).reseed_counter
                == old(self).reseed_counter && final(self).key@ == mixed_key(
                old(self).hash_alg,
                old(self).key@,
                old(self).value@,
                data@,
            ) && final(self).value@ == mixed_value(
                old(self).hash_alg,
                old(self).key@,
                old(self).value@,
                data@,
            ),
    {
        let h: u16 = self.hash_alg;
        let mut m: Vec<u8> = to_vec(self.value.as_slice());
        m.push(0);
        m.extend_from_slice(data);
        assert(m@ =~= self.value@ + seq![0u8] + data@);
        let k1: Vec<u8> = match hmac(h, self.key.as_slice(), m.as_slice()) {
            Ok(v) => v,
            Err(_) => {
                return Err(TpmRc(rc::FAILURE));
            },
        };
        let v1: Vec<u8> = match hmac(h, k1.as_slice(), self.value.as_slice()) {
            Ok(v) => v,
            Err(_) => {
                return Err(TpmRc(rc::FAILURE));
            },
        };
        if data.len() == 0 {
            assert(data@ =~= Seq::<u8>::empty());
            self.key = k1;
            self.value = v1;
            return Ok(());
        }
        let mut m2: Vec<u8> = to_vec(v1.as_slice());
        m2.push(1);
        m2.extend_from_slice(data);
        assert(m2@ =~= v1@ + seq![1u8] + data@);
        let k2: Vec<u8> = match hmac(h, k1.as_slice(), m2.as_slice()) {
            Ok(v) => v,
            Err(_) => {
                return Err(TpmRc(rc::FAILURE));
            },
        };
        let v2: Vec<u8> = match hmac(h, k2.as_slice(), v1.as_slice()) {
            Ok(v) => v,
            Err(_) => {
                return Err(TpmRc(rc::FAILURE));
            },
        };
        self.key = k2;
        self.value = v2;
        Ok(())
    }

    /// A generator on `hash_alg`, seeded with entropy and a personalization.
    pub fn with_hash(hash_alg: u16, entropy: &[u8], personalization: &[u8]) -> (r: TpmResult<Drbg>)
        ensures
            r is Ok <==> supported(hash_alg),
            r is Err ==> r->Err_0 == TpmRc(rc::FAILURE),
            r matches Ok(g) ==> g.model() == seeded(hash_alg, entropy@ + personalization@),
    {
        let size: usize = match digest_size(hash_alg) {
            Ok(n) => n,
            Err(_) => {
                return Err(TpmRc(rc::FAILURE));
            },
        };
        let mut g: Drbg = Drbg {
            hash_alg,
            key: filled(0, size),
            value: filled(1, size),
            reseed_counter: 1,
        };
        let mut seed: Vec<u8> = to_vec(entropy);
        seed.extend_from_slice(personalization);
        assert(seed@ =~= entropy@ + personalization@);
        g.mix(seed.as_slice())?;
        Ok(g)
    }

    /// A SHA-256 generator, seeded with entropy and a personalization.
    pub fn new(entropy: &[u8], personalization: &[u8]) -> (r: TpmResult<Drbg>)
        ensures
            r is Ok,
            r->Ok_0.model() == seeded(alg::SHA256, entropy@ + personalization@),
    {
        Drbg::with_hash(alg::SHA256, entropy, personalization)
    }

    /// Mix octets in without counting as a seeding.
    pub fn stir(&mut self, data: &[u8]) -> (r: TpmResult<()>)
        ensures
            r is Ok <==> supported(old(self).spec_hash()),
            r is Err ==> r->Err_0 == TpmRc(rc::FAILURE) && *final(self) == *old(self),
            r is Ok ==> final(self).model() == (RngModel::Hmac {
                hash_alg: old(self).spec_hash(),
                key: mixed_key(
                    old(self).spec_hash(),
                    old(self).spec_key(),
                    old(self).spec_value(),
                    data@,
                ),
                value: mixed_value(
                    old(self).spec_hash(),
                    old(self).spec_key(),
                    old(self).spec_value(),
                    data@,
                ),
                counter: old(self).spec_counter(),
            }),
    {
        self.mix(data)
    }

    /// Mix fresh entropy in and start counting again.
    pub fn reseed(&mut self, entropy: &[u8]) -> (r: TpmResult<()>)
        ensures
            r is Ok <==> supported(old(self).spec_hash()),
            r is Err ==> r->Err_0 == TpmRc(rc::FAILURE) && *final(self) == *old(self),
            r is Ok ==> final(self).model() == (RngModel::Hmac {
                hash_alg: old(self).spec_hash(),
                key: mixed_key(
                    old(self).spec_hash(),
                    old(self).spec_key(),
                    old(self).spec_value(),
                    entropy@,
                ),
                value: mixed_value(
                    old(self).spec_hash(),
                    old(self).spec_key(),
                    old(self).spec_value(),
                    entropy@,
                ),
                counter: 1,
            }),
    {
        self.mix(entropy)?;
        self.reseed_counter = 1;
        Ok(())
    }

    /// The working key, for the debug console.
    pub fn key(&self) -> (r: &[u8])
        ensures
            r@ == self.spec_key(),
    {
        self.key.as_slice()
    }

    /// The working value, for the debug console.
    pub fn value(&self) -> (r: &[u8])
        ensures
            r@ == self.spec_value(),
    {
        self.value.as_slice()
    }

    /// Requests since the last seeding.
    pub fn reseed_counter(&self) -> (r: u64)
        ensures
            r == self.spec_counter(),
    {
        self.reseed_counter
    }

    /// A generator in the same state.
    pub fn copy(&self) -> (r: Drbg)
        ensures
            r.model() == self.model(),
    {
        Drbg {
            hash_alg: self.hash_alg,
            key: to_vec(self.key.as_slice()),
            value: to_vec(self.value.as_slice()),
            reseed_counter: self.reseed_counter,
        }
    }

    /// Say how many requests there have been since the last seeding.
    pub fn set_reseed_counter(&mut self, counter: u64)
        ensures
            final(self).model() == (RngModel::Hmac {
                hash_alg: old(self).spec_hash(),
                key: old(self).spec_key(),
                value: old(self).spec_value(),
                counter,
            }),
    {
        self.reseed_counter = counter;
    }

    /// True when the generator answers nothing until it is seeded again.
    pub fn needs_reseed(&self) -> (r: bool)
        ensures
            r == (self.spec_counter() > RESEED_INTERVAL),
    {
        self.reseed_counter > RESEED_INTERVAL
    }
}

/// An HMAC DRBG on `hash_alg` that has just been seeded.
pub open spec fn seeded(hash_alg: u16, seed: Seq<u8>) -> RngModel {
    let zeros = Seq::new(size_of(hash_alg), |i: int| 0u8);
    let ones = Seq::new(size_of(hash_alg), |i: int| 1u8);
    RngModel::Hmac {
        hash_alg,
        key: mixed_key(hash_alg, zeros, ones, seed),
        value: mixed_value(hash_alg, zeros, ones, seed),
        counter: 1,
    }
}

impl Rng for Drbg {
    open spec fn model(&self) -> RngModel {
        RngModel::Hmac {
            hash_alg: self.spec_hash(),
            key: self.spec_key(),
            value: self.spec_value(),
            counter: self.spec_counter(),
        }
    }

    fn bytes(&mut self, n: usize) -> (r: TpmResult<Vec<u8>>) {
        proof {
            reveal(draw);
        }
        let h: u16 = self.hash_alg;
        if self.reseed_counter > RESEED_INTERVAL {
            return Err(TpmRc(rc::FAILURE));
        }
        let size: usize = match digest_size(h) {
            Ok(s) => s,
            Err(_) => {
                return Err(TpmRc(rc::FAILURE));
            },
        };
        let ghost key = self.key@;
        let ghost value = self.value@;
        let ghost blocks = blocks_needed(n as nat, size as nat);
        proof {
            let s = size as int;
            assert(blocks * s >= n && (blocks - 1) * s < n) by (nonlinear_arith)
                requires
                    s > 0,
                    n >= 0,
                    blocks == (n + s - 1) / s,
            ;
        }
        let mut out: Vec<u8> = Vec::new();
        let mut v: Vec<u8> = to_vec(self.value.as_slice());
        let ghost mut done: nat = 0;
        while out.len() < n
            invariant
                supported(h),
                h == self.hash_alg,
                size == size_of(h),
                size >= 20,
                self.key@ == key,
                v@ == stepped(h, key, value, done),
                out@ == output(h, key, value, done),
                out@.len() == done * size,
                done <= blocks,
                blocks * size >= n,
                (blocks - 1) * size < n,
            decreases blocks - done,
        {
            proof {
                broadcast use lemma_hmac_len;

                if done >= blocks {
                    assert(done * size >= blocks * size) by (nonlinear_arith)
                        requires
                            done >= blocks,
                    ;
                }
            }
            v = match hmac(h, self.key.as_slice(), v.as_slice()) {
                Ok(x) => x,
                Err(_) => {
                    return Err(TpmRc(rc::FAILURE));
                },
            };
            out.extend_from_slice(v.as_slice());
            proof {
                broadcast use lemma_hmac_len;

                done = done + 1;
                assert(out@ =~= output(h, key, value, done));
                assert((done - 1) * size + size == done * size) by (nonlinear_arith);
            }
        }
        proof {
            if done < blocks {
                assert(done * size <= (blocks - 1) * size) by (nonlinear_arith)
                    requires
                        done <= blocks - 1,
                ;
            }
            assert(done == blocks);
        }
        out.truncate(n);
        assert(out@ =~= output(h, key, value, blocks).take(n as int));
        self.value = v;
        let empty: Vec<u8> = Vec::new();
        match self.mix(empty.as_slice()) {
            Ok(_) => {},
            Err(e) => {
                return Err(e);
            },
        }
        assert(empty@ =~= Seq::<u8>::empty());
        self.reseed_counter = self.reseed_counter + 1;
        Ok(out)
    }
}

/// A generator that always produces the same octets from the same seed, label
/// and context.
#[derive(Debug)]
pub struct SeededRng {
    inner: Drbg,
}

impl SeededRng {
    /// Seed the generator.
    pub fn new(hash_alg: u16, seed: &[u8], label: &[u8], context: &[u8]) -> (r: TpmResult<
        SeededRng,
    >)
        ensures
            r is Ok <==> supported(hash_alg),
            r is Err ==> r->Err_0 == TpmRc(rc::FAILURE),
            r matches Ok(g) ==> g.model() == seeded(
                hash_alg,
                seed@ + (label@ + seq![0u8] + context@),
            ),
    {
        let mut p: Vec<u8> = to_vec(label);
        p.push(0);
        p.extend_from_slice(context);
        assert(p@ =~= label@ + seq![0u8] + context@);
        let inner: Drbg = Drbg::with_hash(hash_alg, seed, p.as_slice())?;
        Ok(SeededRng { inner })
    }
}

impl Rng for SeededRng {
    closed spec fn model(&self) -> RngModel {
        self.inner.model()
    }

    fn bytes(&mut self, n: usize) -> (r: TpmResult<Vec<u8>>) {
        proof {
            reveal(draw);
        }
        self.inner.bytes(n)
    }
}

/// A generator that does not fail hands out as many octets as were asked for.
pub proof fn lemma_draw_len(m: RngModel, n: nat)
    ensures
        draw(m, n).0 is Ok ==> draw(m, n).0->Ok_0.len() == n,
{
    reveal(draw);
    match m {
        RngModel::Hmac { hash_alg, key, value, counter } => {
            if supported(hash_alg) {
                let s = size_of(hash_alg) as int;
                let blocks = blocks_needed(n, size_of(hash_alg));
                lemma_output_len(hash_alg, key, value, blocks);
                assert(blocks * s >= n) by (nonlinear_arith)
                    requires
                        s > 0,
                        n >= 0,
                        blocks == (n + s - 1) / s,
                ;
            }
        },
        _ => {},
    }
}

} // verus!
