//! Platform Configuration Registers.

use vstd::prelude::*;

use super::session::{join, joined};
use crate::tpm::config;
use crate::tpm::constants::rc;
use crate::tpm::crypto::hash::{
    digest, digest_size, hash_of, lemma_hash_len, size_of, supported,
};
use crate::tpm::error::{TpmRc, TpmResult};
use crate::tpm::structures::lists::{is_set, PcrSelect, PcrSelection};
use crate::util::bytes::{filled, to_vec};

verus! {

/// Registers in each bank.
pub const REGISTERS: usize = 24;

/// The registers of one hash algorithm.
#[derive(Debug)]
pub struct PcrBank {
    pub alg: u16,
    pub values: Vec<Vec<u8>>,
}

/// Every bank.
#[derive(Debug)]
pub struct PcrBanks {
    pub banks: Vec<PcrBank>,
    /// How many times a register that counts has changed.
    pub counter: u32,
}

/// What one bank holds.
#[verifier::ext_equal]
pub struct BankView {
    pub alg: u16,
    pub values: Seq<Seq<u8>>,
}

impl View for PcrBank {
    type V = BankView;

    open spec fn view(&self) -> BankView {
        BankView { alg: self.alg, values: self.values@.map_values(|v: Vec<u8>| v@) }
    }
}

/// What the banks hold.
pub open spec fn views(s: Seq<PcrBank>) -> Seq<BankView> {
    s.map_values(|b: PcrBank| b@)
}

/// The localities that may extend a register, one bit each.
pub open spec fn spec_extend_localities(index: int) -> u8 {
    if index == 17 || index == 18 {
        0x1C
    } else if index == 19 {
        0x0C
    } else if index == 20 {
        0x0E
    } else if index == 21 || index == 22 {
        0x04
    } else {
        0x1F
    }
}

/// The localities that may extend a register, one bit each.
pub fn extend_localities(index: u16) -> (r: u8)
    ensures
        r == spec_extend_localities(index as int),
{
    match index {
        17 | 18 => 0x1C,
        19 => 0x0C,
        20 => 0x0E,
        21 | 22 => 0x04,
        _ => 0x1F,
    }
}

/// The localities that may reset a register, one bit each.
pub open spec fn spec_reset_localities(index: int) -> u8 {
    if index == 16 || index == 23 {
        0x0F
    } else if index == 21 || index == 22 {
        0x0C
    } else {
        0
    }
}

/// The localities that may reset a register, one bit each.
pub fn reset_localities(index: u16) -> (r: u8)
    ensures
        r == spec_reset_localities(index as int),
{
    match index {
        16 | 23 => 0x0F,
        21 | 22 => 0x0C,
        _ => 0,
    }
}

/// True when `mask` has the bit of a locality.
pub open spec fn spec_admits(mask: u8, locality: u8) -> bool {
    locality < 5 && (mask >> locality) & 1 == 1
}

/// True when `mask` has the bit of a locality.
pub fn admits(mask: u8, locality: u8) -> (r: bool)
    ensures
        r == spec_admits(mask, locality),
{
    locality < 5 && (mask >> locality) & 1 == 1
}

/// True for a register whose changes are counted.
pub open spec fn counts(index: int) -> bool {
    index != 16 && index != 21 && index != 22 && index != 23
}

/// True for a register that TPM2_Shutdown(STATE) keeps.
pub open spec fn is_saved(index: int) -> bool {
    index < 16
}

/// True for a register that a startup sets to all ones.
pub open spec fn starts_at_ones(index: int) -> bool {
    17 <= index <= 22
}

/// What a register of `alg` holds after a startup from `locality`.
///
/// The first register records the locality.
pub open spec fn initial(alg: u16, index: int, locality: u8) -> Seq<u8> {
    if starts_at_ones(index) {
        Seq::new(size_of(alg), |i: int| 0xFFu8)
    } else if index == 0 {
        Seq::new(
            size_of(alg),
            |i: int|
                if i == size_of(alg) - 1 {
                    locality
                } else {
                    0u8
                },
        )
    } else {
        Seq::new(size_of(alg), |i: int| 0u8)
    }
}

/// A bank after a startup from `locality`.
pub open spec fn initial_bank(alg: u16, locality: u8) -> BankView {
    BankView { alg, values: Seq::new(24, |i: int| initial(alg, i, locality)) }
}

/// A bank after TPM2_Startup(STATE), which keeps the registers that
/// TPM2_Shutdown(STATE) saved.
pub open spec fn bank_resumed(b: BankView) -> BankView {
    BankView {
        alg: b.alg,
        values: Seq::new(
            24,
            |i: int|
                if is_saved(i) {
                    b.values[i]
                } else {
                    initial(b.alg, i, 0)
                },
        ),
    }
}

fn initial_value(alg: u16, index: u16, locality: u8, size: usize) -> (r: Vec<u8>)
    requires
        supported(alg),
        size == size_of(alg),
    ensures
        r@ == initial(alg, index as int, locality),
{
    if index >= 17 && index <= 22 {
        let r: Vec<u8> = filled(0xFF, size);
        assert(r@ =~= initial(alg, index as int, locality));
        r
    } else {
        let mut r: Vec<u8> = filled(0, size);
        if index == 0 {
            r.set(size - 1, locality);
        }
        assert(r@ =~= initial(alg, index as int, locality));
        r
    }
}

/// A register extended with a digest.
pub open spec fn extended(alg: u16, value: Seq<u8>, new: Seq<u8>) -> Seq<u8> {
    hash_of(alg, value + new)
}

/// A register of a bank after each digest of its algorithm, in order.
pub open spec fn extended_by(alg: u16, value: Seq<u8>, pairs: Seq<(u16, Seq<u8>)>) -> Seq<u8>
    decreases pairs.len(),
{
    if pairs.len() == 0 {
        value
    } else {
        let before = extended_by(alg, value, pairs.drop_last());
        if pairs.last().0 == alg {
            extended(alg, before, pairs.last().1)
        } else {
            before
        }
    }
}

/// A bank after the digests went into register `index`.
pub open spec fn bank_extended(b: BankView, index: int, pairs: Seq<(u16, Seq<u8>)>) -> BankView {
    BankView {
        alg: b.alg,
        values: b.values.update(index, extended_by(b.alg, b.values[index], pairs)),
    }
}

/// A counter one further on, zero after the largest.
pub open spec fn next_count(counter: u32) -> u32 {
    if counter == u32::MAX {
        0
    } else {
        (counter + 1) as u32
    }
}

/// What pairs of an algorithm and a digest hold.
pub open spec fn pair_views(s: Seq<(u16, Vec<u8>)>) -> Seq<(u16, Seq<u8>)> {
    s.map_values(|p: (u16, Vec<u8>)| (p.0, p.1@))
}

/// The values of bank `alg` that `mask` selects, of the first `n` registers.
pub open spec fn bank_selected(b: BankView, mask: u32, n: nat) -> Seq<Seq<u8>>
    decreases n,
{
    if n == 0 {
        Seq::empty()
    } else {
        let before = bank_selected(b, mask, (n - 1) as nat);
        if is_set(mask, n - 1) {
            before.push(b.values[n - 1])
        } else {
            before
        }
    }
}

impl PcrBank {
    /// Every register holds a digest of the bank's algorithm.
    pub open spec fn wf(&self) -> bool {
        &&& supported(self.alg)
        &&& self.values@.len() == 24
        &&& forall|i: int|
            0 <= i < 24 ==> (#[trigger] self.values@[i])@.len() == size_of(self.alg)
    }

    /// A bank after a startup from `locality`.
    pub fn new(alg: u16, locality: u8) -> (r: TpmResult<PcrBank>)
        ensures
            r is Ok <==> supported(alg),
            r matches Ok(b) ==> b.wf() && b@ == initial_bank(alg, locality),
            r matches Err(e) ==> e == TpmRc(rc::HASH),
    {
        let size: usize = digest_size(alg)?;
        let mut values: Vec<Vec<u8>> = Vec::new();
        let mut i: u16 = 0;
        while i < 24
            invariant
                i <= 24,
                supported(alg),
                size == size_of(alg),
                values@.len() == i,
                forall|j: int|
                    0 <= j < i ==> (#[trigger] values@[j])@ == initial(alg, j, locality),
            decreases 24 - i,
        {
            proof {
                reveal(PcrBanks::wf);
            }
            values.push(initial_value(alg, i, locality, size));
            i = i + 1;
        }
        let b = PcrBank { alg, values };
        assert(b@ =~= initial_bank(alg, locality));
        Ok(b)
    }

    /// Do to every register what TPM2_Startup(STATE) does to it.
    fn resume(&mut self)
        requires
            old(self).wf(),
        ensures
            final(self).wf(),
            final(self)@ == bank_resumed(old(self)@),
    {
        let ghost before = *self;
        let size: usize = self.values[0].len();
        assert(size == size_of(self.alg));
        let mut i: u16 = 16;
        while i < 24
            invariant
                16 <= i <= 24,
                self.wf(),
                before.wf(),
                size == size_of(self.alg),
                self.alg == before.alg,
                forall|j: int| 0 <= j < 16 ==> #[trigger] self@.values[j] == before@.values[j],
                forall|j: int|
                    16 <= j < i ==> #[trigger] self@.values[j] == initial(self.alg, j, 0),
            decreases 24 - i,
        {
            proof {
                reveal(PcrBanks::wf);
            }
            let v: Vec<u8> = initial_value(self.alg, i, 0, size);
            assert(v@.len() == size);
            self.put(i as usize, v);
            i = i + 1;
        }
        assert(self@.values =~= bank_resumed(before@).values);
    }

    /// Set a register.
    fn put(&mut self, index: usize, value: Vec<u8>)
        requires
            old(self).wf(),
            index < 24,
            value@.len() == size_of(old(self).alg),
        ensures
            final(self).wf(),
            final(self)@ == (BankView {
                alg: old(self).alg,
                values: old(self)@.values.update(index as int, value@),
            }),
    {
        self.values.set(index, value);
        assert(self@.values =~= old(self)@.values.update(index as int, value@));
    }
}

impl PcrBanks {
    /// Every bank is complete, and there is one for each algorithm at most.
    #[verifier::opaque]
    pub open spec fn wf(&self) -> bool {
        &&& self.banks@.len() <= config::HASH_COUNT
        &&& forall|i: int| 0 <= i < self.banks@.len() ==> (#[trigger] self.banks@[i]).wf()
        &&& forall|i: int, j: int|
            0 <= i < j < self.banks@.len() ==> (#[trigger] self.banks@[i]).alg != (
            #[trigger] self.banks@[j]).alg
    }

    /// What the banks hold.
    pub open spec fn held(&self) -> Seq<BankView> {
        views(self.banks@)
    }

    /// True when there is a bank for `alg`.
    pub open spec fn has_bank(&self, alg: u16) -> bool {
        exists|i: int| 0 <= i < self.banks@.len() && (#[trigger] self.banks@[i]).alg == alg
    }

    /// The bank for `alg`.
    pub open spec fn bank_of(&self, alg: u16) -> BankView {
        self.banks@[choose|i: int|
            0 <= i < self.banks@.len() && (#[trigger] self.banks@[i]).alg == alg]@
    }

    proof fn lemma_bank(&self, i: int)
        requires
            self.wf(),
            0 <= i < self.banks@.len(),
        ensures
            self.has_bank(self.banks@[i].alg),
            self.bank_of(self.banks@[i].alg) == self.banks@[i]@,
    {
        reveal(PcrBanks::wf);
        let a = self.banks@[i].alg;
        let c = choose|j: int| 0 <= j < self.banks@.len() && (#[trigger] self.banks@[j]).alg == a;
        assert(self.banks@[c].alg == a);
        assert(c == i);
    }

    /// The banks for `algs` after a startup from `locality`, which count from
    /// `counter`.
    pub fn new(algs: &[u16], locality: u8, counter: u32) -> (r: PcrBanks)
        requires
            algs@.len() <= config::HASH_COUNT,
            forall|i: int| 0 <= i < algs@.len() ==> supported(#[trigger] algs@[i]),
            forall|i: int, j: int|
                0 <= i < j < algs@.len() ==> #[trigger] algs@[i] != #[trigger] algs@[j],
        ensures
            r.wf(),
            r.held() == algs@.map_values(|a: u16| initial_bank(a, locality)),
            r.counter == counter,
    {
        proof {
            reveal(PcrBanks::wf);
        }
        let mut banks: Vec<PcrBank> = Vec::new();
        let mut i: usize = 0;
        while i < algs.len()
            invariant
                i <= algs@.len() <= config::HASH_COUNT,
                forall|i: int| 0 <= i < algs@.len() ==> supported(#[trigger] algs@[i]),
                banks@.len() == i,
                forall|j: int|
                    0 <= j < i ==> (#[trigger] banks@[j]).wf() && banks@[j]@ == initial_bank(
                        algs@[j],
                        locality,
                    ),
            decreases algs@.len() - i,
        {
            proof {
                reveal(PcrBanks::wf);
            }
            assert(supported(algs@[i as int]));
            if let Ok(b) = PcrBank::new(algs[i], locality) {
                banks.push(b);
            }
            i = i + 1;
        }
        let r = PcrBanks { banks, counter };
        assert(r.held() =~= algs@.map_values(|a: u16| initial_bank(a, locality)));
        assert forall|i: int, j: int| 0 <= i < j < r.banks@.len() implies (
        #[trigger] r.banks@[i]).alg != (#[trigger] r.banks@[j]).alg by {
            assert(r.banks@[i]@.alg == algs@[i]);
            assert(r.banks@[j]@.alg == algs@[j]);
        }
        r
    }

    /// How many times a register that counts has changed.
    pub fn update_counter(&self) -> (r: u32)
        ensures
            r == self.counter,
    {
        self.counter
    }

    /// The algorithms that have a bank, in order.
    pub fn algorithms(&self) -> (r: Vec<u16>)
        ensures
            r@ == self.held().map_values(|b: BankView| b.alg),
    {
        let mut out: Vec<u16> = Vec::new();
        let mut i: usize = 0;
        while i < self.banks.len()
            invariant
                i <= self.banks@.len(),
                out@.len() == i,
                forall|j: int| 0 <= j < i ==> #[trigger] out@[j] == self.banks@[j].alg,
            decreases self.banks@.len() - i,
        {
            proof {
                reveal(PcrBanks::wf);
            }
            out.push(self.banks[i].alg);
            i = i + 1;
        }
        assert(out@ =~= self.held().map_values(|b: BankView| b.alg));
        out
    }

    /// The place of the bank for `alg`.
    fn find(&self, alg: u16) -> (r: Option<usize>)
        ensures
            match r {
                Some(i) => i < self.banks@.len() && self.banks@[i as int].alg == alg,
                None => !self.has_bank(alg),
            },
    {
        let mut i: usize = 0;
        while i < self.banks.len()
            invariant
                i <= self.banks@.len(),
                forall|j: int| 0 <= j < i ==> (#[trigger] self.banks@[j]).alg != alg,
            decreases self.banks@.len() - i,
        {
            proof {
                reveal(PcrBanks::wf);
            }
            if self.banks[i].alg == alg {
                return Some(i);
            }
            i = i + 1;
        }
        None
    }

    /// What register `index` of the bank for `alg` holds.
    ///
    /// TPM_RC_HASH without such a bank, and TPM_RC_VALUE without such a
    /// register.
    pub fn read(&self, alg: u16, index: u16) -> (r: TpmResult<&[u8]>)
        requires
            self.wf(),
        ensures
            r is Ok <==> self.has_bank(alg) && index < 24,
            r matches Ok(v) ==> v@ == self.bank_of(alg).values[index as int],
            r matches Err(e) ==> e == (if self.has_bank(alg) {
                TpmRc(rc::VALUE)
            } else {
                TpmRc(rc::HASH)
            }),
    {
        proof {
            reveal(PcrBanks::wf);
        }
        match self.find(alg) {
            None => Err(TpmRc(rc::HASH)),
            Some(i) => {
                proof {
                    self.lemma_bank(i as int);
                }
                if index as usize >= REGISTERS {
                    return Err(TpmRc(rc::VALUE));
                }
                Ok(self.banks[i].values[index as usize].as_slice())
            },
        }
    }

    /// Extend register `index` of the bank for `alg`.
    fn extend_bank(&mut self, index: u16, alg: u16, new: &[u8])
        requires
            old(self).wf(),
            index < 24,
        ensures
            final(self).wf(),
            final(self).counter == old(self).counter,
            final(self).banks@.len() == old(self).banks@.len(),
            forall|k: int|
                0 <= k < old(self).banks@.len() ==> (#[trigger] final(self).banks@[k])@
                    == bank_extended(old(self).banks@[k]@, index as int, seq![(alg, new@)]),
    {
        proof {
            reveal(PcrBanks::wf);
        }
        broadcast use lemma_hash_len;

        let ghost before = *self;
        let ghost one = seq![(alg, new@)];
        proof {
            assert(one.drop_last() =~= Seq::<(u16, Seq<u8>)>::empty());
            assert forall|k: int|
                0 <= k < before.banks@.len() && (#[trigger] before.banks@[k]).alg
                    != alg implies before.banks@[k]@ == bank_extended(
                before.banks@[k]@,
                index as int,
                one,
            ) by {
                let b = before.banks@[k]@;
                assert(extended_by(b.alg, b.values[index as int], one) == extended_by(
                    b.alg,
                    b.values[index as int],
                    one.drop_last(),
                ));
                assert(b.values.update(index as int, b.values[index as int]) =~= b.values);
            }
        }
        match self.find(alg) {
            None => {
                assert forall|k: int| 0 <= k < before.banks@.len() implies (
                #[trigger] self.banks@[k])@ == bank_extended(before.banks@[k]@, index as int, one) by {
                    assert(before.banks@[k].alg != alg);
                }
            },
            Some(i) => {
                let mut input: Vec<u8> = to_vec(self.banks[i].values[index as usize].as_slice());
                input.extend_from_slice(new);
                assert(input@ =~= before.banks@[i as int]@.values[index as int] + new@);
                if let Ok(d) = digest(alg, input.as_slice()) {
                    let b: &mut PcrBank = &mut self.banks[i];
                    b.put(index as usize, d);
                    assert forall|k: int| 0 <= k < before.banks@.len() implies (
                    #[trigger] self.banks@[k])@ == bank_extended(
                        before.banks@[k]@,
                        index as int,
                        one,
                    ) by {
                        if k != i {
                            assert(self.banks@[k] == before.banks@[k]);
                            assert(before.banks@[k].alg != alg);
                        } else {
                            let v = before.banks@[k]@.values[index as int];
                            assert(extended_by(alg, v, one.drop_last()) == v);
                            assert(one.last() == (alg, new@));
                        }
                    }
                    assert forall|a: int, b: int| 0 <= a < b < self.banks@.len() implies (
                    #[trigger] self.banks@[a]).alg != (#[trigger] self.banks@[b]).alg by {
                        assert(self.banks@[a]@.alg == before.banks@[a]@.alg);
                        assert(self.banks@[b]@.alg == before.banks@[b]@.alg);
                    }
                }
            },
        }
    }

    /// Extend register `index` with the digests, each in the bank of its
    /// algorithm. A digest without a bank is left out.
    ///
    /// TPM_RC_LOCALITY when the register may not be extended from `locality`.
    pub fn extend(&mut self, index: u16, locality: u8, pairs: &[(u16, Vec<u8>)]) -> (r: TpmResult<
        (),
    >)
        requires
            old(self).wf(),
            index < 24,
        ensures
            final(self).wf(),
            r is Ok <==> spec_admits(spec_extend_localities(index as int), locality),
            r matches Err(e) ==> e == TpmRc(rc::LOCALITY) && *final(self) == *old(self),
            r is Ok ==> final(self).held() == old(self).held().map_values(
                |b: BankView| bank_extended(b, index as int, pair_views(pairs@)),
            ),
            r is Ok ==> final(self).counter == (if counts(index as int) {
                next_count(old(self).counter)
            } else {
                old(self).counter
            }),
    {
        proof {
            reveal(PcrBanks::wf);
        }
        if !admits(extend_localities(index), locality) {
            return Err(TpmRc(rc::LOCALITY));
        }
        let ghost before = *self;
        let ghost all = pair_views(pairs@);
        let mut i: usize = 0;
        proof {
            assert(all.take(0) =~= Seq::<(u16, Seq<u8>)>::empty());
            assert forall|k: int| 0 <= k < before.banks@.len() implies (
            #[trigger] before.banks@[k])@ == bank_extended(
                before.banks@[k]@,
                index as int,
                all.take(0),
            ) by {
                let b = before.banks@[k]@;
                assert(b.values.update(index as int, b.values[index as int]) =~= b.values);
            }
        }
        while i < pairs.len()
            invariant
                i <= pairs@.len(),
                index < 24,
                self.wf(),
                before.wf(),
                all == pair_views(pairs@),
                self.counter == before.counter,
                self.banks@.len() == before.banks@.len(),
                forall|k: int|
                    0 <= k < before.banks@.len() ==> (#[trigger] self.banks@[k])@ == bank_extended(
                        before.banks@[k]@,
                        index as int,
                        all.take(i as int),
                    ),
            decreases pairs@.len() - i,
        {
            proof {
                reveal(PcrBanks::wf);
            }
            let ghost mid = *self;
            self.extend_bank(index, pairs[i].0, pairs[i].1.as_slice());
            proof {
                let n = all.take(i + 1);
                let p = all[i as int];
                assert(n.drop_last() =~= all.take(i as int));
                assert(n.last() == p);
                assert forall|k: int| 0 <= k < before.banks@.len() implies (
                #[trigger] self.banks@[k])@ == bank_extended(before.banks@[k]@, index as int, n) by {
                    let b = before.banks@[k]@;
                    let m = mid.banks@[k]@;
                    let one = seq![p];
                    assert(one.drop_last() =~= Seq::<(u16, Seq<u8>)>::empty());
                    assert(one.last() == p);
                    assert(m == bank_extended(b, index as int, all.take(i as int)));
                    assert(self.banks@[k]@ == bank_extended(m, index as int, one));
                    let v = m.values[index as int];
                    assert(v == extended_by(b.alg, b.values[index as int], all.take(i as int)));
                    assert(extended_by(b.alg, v, one.drop_last()) == v);
                    assert(extended_by(b.alg, v, one) == extended_by(
                        b.alg,
                        b.values[index as int],
                        n,
                    ));
                    assert(bank_extended(m, index as int, one).values =~= bank_extended(
                        b,
                        index as int,
                        n,
                    ).values);
                }
            }
            i = i + 1;
        }
        if index != 16 && index != 21 && index != 22 && index != 23 {
            self.counter = if self.counter == u32::MAX {
                0
            } else {
                self.counter + 1
            };
        }
        proof {
            assert(all.take(all.len() as int) =~= all);
            assert(self.held() =~= before.held().map_values(
                |b: BankView| bank_extended(b, index as int, all),
            ));
        }
        Ok(())
    }

    /// The digest of `data` for each bank, in order.
    pub open spec fn digests_of(&self, data: Seq<u8>) -> Seq<(u16, Seq<u8>)> {
        self.held().map_values(|b: BankView| (b.alg, hash_of(b.alg, data)))
    }

    /// The digest of `data` for each bank, in order.
    pub fn digests(&self, data: &[u8]) -> (r: Vec<(u16, Vec<u8>)>)
        requires
            self.wf(),
        ensures
            pair_views(r@) == self.digests_of(data@),
    {
        proof {
            reveal(PcrBanks::wf);
        }
        let mut out: Vec<(u16, Vec<u8>)> = Vec::new();
        let mut i: usize = 0;
        while i < self.banks.len()
            invariant
                i <= self.banks@.len(),
                self.wf(),
                out@.len() == i,
                forall|j: int|
                    0 <= j < i ==> (#[trigger] out@[j]).0 == self.banks@[j].alg && out@[j].1@
                        == hash_of(self.banks@[j].alg, data@),
            decreases self.banks@.len() - i,
        {
            proof {
                reveal(PcrBanks::wf);
            }
            let alg: u16 = self.banks[i].alg;
            assert(self.banks@[i as int].wf());
            if let Ok(d) = digest(alg, data) {
                out.push((alg, d));
            }
            i = i + 1;
        }
        assert(pair_views(out@) =~= self.digests_of(data@));
        out
    }

    /// Extend register `index` of every bank with the digest of `data`, and
    /// return the digests.
    pub fn event(&mut self, index: u16, locality: u8, data: &[u8]) -> (r: TpmResult<
        Vec<(u16, Vec<u8>)>,
    >)
        requires
            old(self).wf(),
            index < 24,
        ensures
            final(self).wf(),
            r is Ok <==> spec_admits(spec_extend_localities(index as int), locality),
            r matches Err(e) ==> e == TpmRc(rc::LOCALITY) && *final(self) == *old(self),
            r matches Ok(d) ==> {
                &&& pair_views(d@) == old(self).digests_of(data@)
                &&& final(self).held() == old(self).held().map_values(
                    |b: BankView| bank_extended(b, index as int, old(self).digests_of(data@)),
                )
                &&& final(self).counter == (if counts(index as int) {
                    next_count(old(self).counter)
                } else {
                    old(self).counter
                })
            },
    {
        proof {
            reveal(PcrBanks::wf);
        }
        let d: Vec<(u16, Vec<u8>)> = self.digests(data);
        self.extend(index, locality, d.as_slice())?;
        Ok(d)
    }

    /// Why a digest does not go into a register of a bank: TPM_RC_HASH without
    /// such a bank, TPM_RC_VALUE without such a register, and TPM_RC_SIZE when
    /// the digest is not one of the bank's algorithm.
    pub open spec fn digest_check(&self, alg: u16, index: u16, digest: Seq<u8>) -> TpmResult<()> {
        if !self.has_bank(alg) {
            Err(TpmRc(rc::HASH))
        } else if index >= 24 {
            Err(TpmRc(rc::VALUE))
        } else if digest.len() != size_of(alg) {
            Err(TpmRc(rc::SIZE))
        } else {
            Ok(())
        }
    }

    /// Check that a digest goes into a register of a bank.
    fn check_digest(&self, alg: u16, index: u16, digest: &[u8]) -> (r: TpmResult<usize>)
        requires
            self.wf(),
        ensures
            match self.digest_check(alg, index, digest@) {
                Ok(_) => r is Ok && r->Ok_0 < self.banks@.len() && self.banks@[r->Ok_0 as int].alg
                    == alg,
                Err(e) => r is Err && r->Err_0 == e,
            },
    {
        proof {
            reveal(PcrBanks::wf);
        }
        match self.find(alg) {
            None => Err(TpmRc(rc::HASH)),
            Some(i) => {
                assert(self.has_bank(alg));
                if index >= 24 {
                    return Err(TpmRc(rc::VALUE));
                }
                assert(self.banks@[i as int].wf());
                let size: usize = self.banks[i].values[0].len();
                if digest.len() != size {
                    return Err(TpmRc(rc::SIZE));
                }
                Ok(i)
            },
        }
    }

    /// Extend one register of one bank with a digest.
    pub fn extend_one(&mut self, alg: u16, index: u16, digest: &[u8]) -> (r: TpmResult<()>)
        requires
            old(self).wf(),
        ensures
            final(self).wf(),
            r == old(self).digest_check(alg, index, digest@),
            r is Err ==> *final(self) == *old(self),
            r is Ok ==> final(self).held() == old(self).held().map_values(
                |b: BankView| bank_extended(b, index as int, seq![(alg, digest@)]),
            ),
            r is Ok ==> final(self).counter == (if counts(index as int) {
                next_count(old(self).counter)
            } else {
                old(self).counter
            }),
    {
        let _place: usize = self.check_digest(alg, index, digest)?;
        let ghost before = *self;
        self.extend_bank(index, alg, digest);
        if index != 16 && index != 21 && index != 22 && index != 23 {
            self.counter = if self.counter == u32::MAX {
                0
            } else {
                self.counter + 1
            };
        }
        proof {
            reveal(PcrBanks::wf);
            assert(self.held() =~= before.held().map_values(
                |b: BankView| bank_extended(b, index as int, seq![(alg, digest@)]),
            ));
        }
        Ok(())
    }

    /// Put a digest straight into one register of one bank.
    pub fn set(&mut self, alg: u16, index: u16, digest: &[u8]) -> (r: TpmResult<()>)
        requires
            old(self).wf(),
        ensures
            final(self).wf(),
            r == old(self).digest_check(alg, index, digest@),
            r is Err ==> *final(self) == *old(self),
            r is Ok ==> final(self).held() == old(self).held().map_values(
                |b: BankView|
                    if b.alg == alg {
                        BankView { alg: b.alg, values: b.values.update(index as int, digest@) }
                    } else {
                        b
                    },
            ),
            final(self).counter == old(self).counter,
    {
        let i: usize = self.check_digest(alg, index, digest)?;
        let ghost before = *self;
        proof {
            reveal(PcrBanks::wf);
        }
        assert(self.banks@[i as int].wf());
        let b: &mut PcrBank = &mut self.banks[i];
        b.put(index as usize, to_vec(digest));
        proof {
            assert forall|a: int, b: int| 0 <= a < b < self.banks@.len() implies (
            #[trigger] self.banks@[a]).alg != (#[trigger] self.banks@[b]).alg by {
                assert(self.banks@[a]@.alg == before.banks@[a]@.alg);
                assert(self.banks@[b]@.alg == before.banks@[b]@.alg);
            }
            assert forall|k: int| 0 <= k < before.banks@.len() && k != i implies (
            #[trigger] before.banks@[k]).alg != alg by {
                assert(before.banks@[i as int].alg == alg);
            }
            assert(self.held() =~= before.held().map_values(
                |b: BankView|
                    if b.alg == alg {
                        BankView { alg: b.alg, values: b.values.update(index as int, digest@) }
                    } else {
                        b
                    },
            ));
        }
        Ok(())
    }

    /// Set register `index` of every bank to zeros.
    ///
    /// TPM_RC_LOCALITY when the register may not be reset from `locality`.
    pub fn reset(&mut self, index: u16, locality: u8) -> (r: TpmResult<()>)
        requires
            old(self).wf(),
            index < 24,
        ensures
            final(self).wf(),
            r is Ok <==> spec_admits(spec_reset_localities(index as int), locality),
            r matches Err(e) ==> e == TpmRc(rc::LOCALITY) && *final(self) == *old(self),
            r is Ok ==> final(self).held() == old(self).held().map_values(
                |b: BankView|
                    BankView {
                        alg: b.alg,
                        values: b.values.update(
                            index as int,
                            Seq::new(size_of(b.alg), |i: int| 0u8),
                        ),
                    },
            ),
            final(self).counter == old(self).counter,
    {
        proof {
            reveal(PcrBanks::wf);
        }
        if !admits(reset_localities(index), locality) {
            return Err(TpmRc(rc::LOCALITY));
        }
        let ghost before = *self;
        let mut i: usize = 0;
        while i < self.banks.len()
            invariant
                i <= self.banks@.len(),
                index < 24,
                self.wf(),
                before.wf(),
                self.counter == before.counter,
                self.banks@.len() == before.banks@.len(),
                forall|k: int|
                    i <= k < before.banks@.len() ==> #[trigger] self.banks@[k] == before.banks@[k],
                forall|k: int|
                    0 <= k < i ==> (#[trigger] self.banks@[k])@ == (BankView {
                        alg: before.banks@[k].alg,
                        values: before.banks@[k]@.values.update(
                            index as int,
                            Seq::new(size_of(before.banks@[k].alg), |i: int| 0u8),
                        ),
                    }),
            decreases self.banks@.len() - i,
        {
            proof {
                reveal(PcrBanks::wf);
            }
            let ghost mid = *self;
            assert(self.banks@[i as int].wf());
            let size: usize = self.banks[i].values[0].len();
            let zeros: Vec<u8> = filled(0, size);
            assert(zeros@ =~= Seq::new(size_of(before.banks@[i as int].alg), |i: int| 0u8));
            let b: &mut PcrBank = &mut self.banks[i];
            b.put(index as usize, zeros);
            assert forall|a: int, b: int| 0 <= a < b < self.banks@.len() implies (
            #[trigger] self.banks@[a]).alg != (#[trigger] self.banks@[b]).alg by {
                assert(self.banks@[a]@.alg == mid.banks@[a]@.alg);
                assert(self.banks@[b]@.alg == mid.banks@[b]@.alg);
            }
            i = i + 1;
        }
        proof {
            assert(self.held() =~= before.held().map_values(
                |b: BankView|
                    BankView {
                        alg: b.alg,
                        values: b.values.update(
                            index as int,
                            Seq::new(size_of(b.alg), |i: int| 0u8),
                        ),
                    },
            ));
        }
        Ok(())
    }

    /// Do to every bank what TPM2_Startup(STATE) does to it.
    pub fn resume(&mut self)
        requires
            old(self).wf(),
        ensures
            final(self).wf(),
            final(self).counter == old(self).counter,
            final(self).held() == old(self).held().map_values(|b: BankView| bank_resumed(b)),
    {
        proof {
            reveal(PcrBanks::wf);
        }
        let ghost before = *self;
        let mut i: usize = 0;
        while i < self.banks.len()
            invariant
                i <= self.banks@.len(),
                self.wf(),
                before.wf(),
                self.counter == before.counter,
                self.banks@.len() == before.banks@.len(),
                forall|k: int|
                    i <= k < before.banks@.len() ==> #[trigger] self.banks@[k] == before.banks@[k],
                forall|k: int|
                    0 <= k < i ==> (#[trigger] self.banks@[k])@ == bank_resumed(before.banks@[k]@),
            decreases self.banks@.len() - i,
        {
            proof {
                reveal(PcrBanks::wf);
            }
            let ghost mid = *self;
            assert(self.banks@[i as int].wf());
            let b: &mut PcrBank = &mut self.banks[i];
            b.resume();
            assert forall|a: int, b: int| 0 <= a < b < self.banks@.len() implies (
            #[trigger] self.banks@[a]).alg != (#[trigger] self.banks@[b]).alg by {
                assert(self.banks@[a]@.alg == mid.banks@[a]@.alg);
                assert(self.banks@[b]@.alg == mid.banks@[b]@.alg);
            }
            i = i + 1;
        }
        assert(self.held() =~= before.held().map_values(|b: BankView| bank_resumed(b)));
    }

    /// A selection without what there is no register for.
    pub open spec fn filtered(&self, s: PcrSelection) -> PcrSelection {
        PcrSelection {
            hash_alg: s.hash_alg,
            select: if self.has_bank(s.hash_alg) {
                s.select
            } else {
                PcrSelect(0)
            },
        }
    }

    /// Selections without what there is no register for.
    pub fn filter_selection(&self, items: &[PcrSelection]) -> (r: Vec<PcrSelection>)
        ensures
            r@ == items@.map_values(|s: PcrSelection| self.filtered(s)),
    {
        let mut out: Vec<PcrSelection> = Vec::new();
        let mut i: usize = 0;
        while i < items.len()
            invariant
                i <= items@.len(),
                out@.len() == i,
                forall|j: int| 0 <= j < i ==> #[trigger] out@[j] == self.filtered(items@[j]),
            decreases items@.len() - i,
        {
            proof {
                reveal(PcrBanks::wf);
            }
            let s: PcrSelection = items[i];
            match self.find(s.hash_alg) {
                Some(_) => {
                    out.push(s);
                },
                None => {
                    out.push(PcrSelection { hash_alg: s.hash_alg, select: PcrSelect(0) });
                },
            }
            i = i + 1;
        }
        assert(out@ =~= items@.map_values(|s: PcrSelection| self.filtered(s)));
        out
    }

    /// The values one selection takes in.
    pub open spec fn selected(&self, s: PcrSelection) -> Seq<Seq<u8>> {
        if self.has_bank(s.hash_alg) {
            bank_selected(self.bank_of(s.hash_alg), s.select.0, 24)
        } else {
            Seq::empty()
        }
    }

    /// The values the selections take in, in order.
    pub open spec fn all_selected(&self, items: Seq<PcrSelection>) -> Seq<Seq<u8>>
        decreases items.len(),
    {
        if items.len() == 0 {
            Seq::empty()
        } else {
            self.all_selected(items.drop_last()) + self.selected(items.last())
        }
    }

    /// The values the selections take in, in order.
    pub fn read_selection(&self, items: &[PcrSelection]) -> (r: Vec<Vec<u8>>)
        requires
            self.wf(),
        ensures
            r@.map_values(|v: Vec<u8>| v@) == self.all_selected(items@),
            forall|i: int| 0 <= i < r@.len() ==> (#[trigger] r@[i])@.len() <= 64,
    {
        proof {
            reveal(PcrBanks::wf);
        }
        let mut out: Vec<Vec<u8>> = Vec::new();
        let mut i: usize = 0;
        let ghost f = |v: Vec<u8>| v@;
        assert(items@.take(0) =~= Seq::<PcrSelection>::empty());
        assert(out@.map_values(f) =~= self.all_selected(items@.take(0)));
        while i < items.len()
            invariant
                i <= items@.len(),
                self.wf(),
                f == (|v: Vec<u8>| v@),
                out@.map_values(f) == self.all_selected(items@.take(i as int)),
                forall|i: int| 0 <= i < out@.len() ==> (#[trigger] out@[i])@.len() <= 64,
            decreases items@.len() - i,
        {
            proof {
                reveal(PcrBanks::wf);
            }
            let s: PcrSelection = items[i];
            let ghost start = out@.map_values(f);
            proof {
                assert(items@.take(i + 1).drop_last() =~= items@.take(i as int));
                assert(items@.take(i + 1).last() == s);
            }
            if let Some(k) = self.find(s.hash_alg) {
                proof {
                    self.lemma_bank(k as int);
                }
                let ghost b = self.bank_of(s.hash_alg);
                let mut n: u16 = 0;
                assert(start + bank_selected(b, s.select.0, 0) =~= start);
                while n < 24
                    invariant
                        n <= 24,
                        self.wf(),
                        k < self.banks@.len(),
                        b == self.banks@[k as int]@,
                        f == (|v: Vec<u8>| v@),
                        out@.map_values(f) == start + bank_selected(b, s.select.0, n as nat),
                        forall|i: int| 0 <= i < out@.len() ==> (#[trigger] out@[i])@.len() <= 64,
                    decreases 24 - n,
                {
                    let ghost before = out@;
                    proof {
                        reveal(PcrBanks::wf);
                    }
                    if s.select.is_selected(n) {
                        assert(self.banks@[k as int].wf());
                        let v: Vec<u8> = to_vec(self.banks[k].values[n as usize].as_slice());
                        assert(v@ == b.values[n as int]);
                        assert(v@.len() == size_of(self.banks@[k as int].alg));
                        out.push(v);
                        assert(out@.map_values(f) =~= before.map_values(f).push(v@));
                    }
                    assert(out@.map_values(f) =~= start + bank_selected(
                        b,
                        s.select.0,
                        (n + 1) as nat,
                    ));
                    n = n + 1;
                }
            } else {
                assert(start + Seq::<Seq<u8>>::empty() =~= start);
            }
            i = i + 1;
        }
        assert(items@.take(i as int) =~= items@);
        out
    }

    /// The digest over the values that the selections take in.
    pub open spec fn digest_over(&self, hash_alg: u16, items: Seq<PcrSelection>) -> Seq<u8> {
        hash_of(hash_alg, flattened(self.all_selected(items)))
    }

    /// The digest over the values that the selections take in.
    pub fn selection_digest(&self, hash_alg: u16, items: &[PcrSelection]) -> (r: TpmResult<Vec<u8>>)
        requires
            self.wf(),
        ensures
            r is Ok <==> supported(hash_alg),
            r matches Ok(d) ==> d@ == self.digest_over(hash_alg, items@),
            r matches Err(e) ==> e == TpmRc(rc::HASH),
    {
        proof {
            reveal(PcrBanks::wf);
        }
        let values: Vec<Vec<u8>> = self.read_selection(items);
        let data: Vec<u8> = join(values.as_slice());
        proof {
            lemma_flattened(values@);
        }
        digest(hash_alg, data.as_slice())
    }
}

/// Values one after the other.
pub open spec fn flattened(values: Seq<Seq<u8>>) -> Seq<u8>
    decreases values.len(),
{
    if values.len() == 0 {
        Seq::empty()
    } else {
        flattened(values.drop_last()) + values.last()
    }
}

proof fn lemma_flattened(values: Seq<Vec<u8>>)
    ensures
        joined(values) == flattened(values.map_values(|v: Vec<u8>| v@)),
    decreases values.len(),
{
    if values.len() > 0 {
        lemma_flattened(values.drop_last());
        assert(values.map_values(|v: Vec<u8>| v@).drop_last() =~= values.drop_last().map_values(
            |v: Vec<u8>| v@,
        ));
    }
}

} // verus!
