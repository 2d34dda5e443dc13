//! Lists.

use vstd::prelude::*;

use super::base::{Tpm2bDigest, TpmtHa};
use crate::tpm::config;
use crate::tpm::constants::rc;
use crate::tpm::crypto::hash::{is_supported, supported};
use crate::tpm::error::{TpmRc, TpmResult};
use crate::tpm::marshal::{parse_sized, Parsed, Reader, Writer};
use crate::util::bytes::{be16, be32, octets16, octets32};

verus! {

/// TPMS_PCR_SELECT: one bit for each register, the first in the lowest bit.
#[derive(Debug, Clone, Copy, PartialEq, Eq, Structural)]
pub struct PcrSelect(pub u32);

/// True when register `i` is selected.
pub open spec fn is_set(mask: u32, i: int) -> bool {
    (mask >> (i as u32)) & 1 == 1
}

impl PcrSelect {
    /// The canonical form.
    pub open spec fn octets(self) -> Seq<u8> {
        seq![
            3u8,
            (self.0 & 0xFF) as u8,
            ((self.0 >> 8) & 0xFF) as u8,
            ((self.0 >> 16) & 0xFF) as u8,
        ]
    }

    /// The selection at `at`.
    pub open spec fn parse(d: Seq<u8>, at: int) -> Parsed<PcrSelect> {
        if at + 1 > d.len() {
            Err(TpmRc(rc::INSUFFICIENT))
        } else if d[at] != 3 {
            Err(TpmRc(rc::VALUE))
        } else if at + 4 > d.len() {
            Err(TpmRc(rc::INSUFFICIENT))
        } else {
            Ok(
                (
                    PcrSelect(
                        d[at + 1] as u32 | (d[at + 2] as u32) << 8 | (d[at + 3] as u32) << 16,
                    ),
                    at + 4,
                ),
            )
        }
    }

    /// Write the canonical form.
    pub fn marshal(&self, w: &mut Writer)
        ensures
            final(w).written() == old(w).written() + self.octets(),
            final(w).good() == old(w).good(),
    {
        w.u8(3);
        w.u8((self.0 & 0xFF) as u8);
        w.u8(((self.0 >> 8) & 0xFF) as u8);
        w.u8(((self.0 >> 16) & 0xFF) as u8);
        assert(w.written() =~= old(w).written() + self.octets());
    }

    /// Read the canonical form.
    pub fn unmarshal(r: &mut Reader) -> (out: TpmResult<PcrSelect>)
        ensures
            final(r).data() == old(r).data(),
            0 <= old(r).at() <= final(r).at() <= final(r).data().len(),
            match Self::parse(old(r).data(), old(r).at()) {
                Ok((v, next)) => out == Ok::<PcrSelect, TpmRc>(v) && final(r).at() == next,
                Err(e) => out == Err::<PcrSelect, TpmRc>(e),
            },
    {
        let size: u8 = r.u8()?;
        if size != 3 {
            return Err(TpmRc(rc::VALUE));
        }
        let b: Vec<u8> = r.take(3)?;
        Ok(PcrSelect(b[0] as u32 | (b[1] as u32) << 8 | (b[2] as u32) << 16))
    }

    /// True when register `i` is selected.
    pub fn is_selected(&self, i: u16) -> (r: bool)
        requires
            i < 32,
        ensures
            r == is_set(self.0, i as int),
    {
        (self.0 >> (i as u32)) & 1 == 1
    }

    /// True when no register is selected.
    pub fn is_empty_selection(&self) -> (r: bool)
        ensures
            r == (self.0 == 0),
    {
        self.0 == 0
    }
}

/// TPMS_PCR_SELECTION.
#[derive(Debug, Clone, Copy, PartialEq, Eq, Structural)]
pub struct PcrSelection {
    pub hash_alg: u16,
    pub select: PcrSelect,
}

impl PcrSelection {
    /// The canonical form.
    pub open spec fn octets(self) -> Seq<u8> {
        octets16(self.hash_alg) + self.select.octets()
    }

    /// The selection at `at`.
    pub open spec fn parse(d: Seq<u8>, at: int) -> Parsed<PcrSelection> {
        if at + 2 > d.len() {
            Err(TpmRc(rc::INSUFFICIENT))
        } else if !supported(be16(d, at)) {
            Err(TpmRc(rc::HASH))
        } else {
            match PcrSelect::parse(d, at + 2) {
                Err(e) => Err(e),
                Ok((select, next)) => Ok((PcrSelection { hash_alg: be16(d, at), select }, next)),
            }
        }
    }

    /// Write the canonical form.
    pub fn marshal(&self, w: &mut Writer)
        ensures
            final(w).written() == old(w).written() + self.octets(),
            final(w).good() == old(w).good(),
    {
        w.u16(self.hash_alg);
        self.select.marshal(w);
        assert(w.written() =~= old(w).written() + self.octets());
    }

    /// Read the canonical form.
    pub fn unmarshal(r: &mut Reader) -> (out: TpmResult<PcrSelection>)
        ensures
            final(r).data() == old(r).data(),
            0 <= old(r).at() <= final(r).at() <= final(r).data().len(),
            match Self::parse(old(r).data(), old(r).at()) {
                Ok((v, next)) => out == Ok::<PcrSelection, TpmRc>(v) && final(r).at() == next,
                Err(e) => out == Err::<PcrSelection, TpmRc>(e),
            },
    {
        let hash_alg: u16 = r.u16()?;
        if !is_supported(hash_alg) {
            return Err(TpmRc(rc::HASH));
        }
        let select = PcrSelect::unmarshal(r)?;
        Ok(PcrSelection { hash_alg, select })
    }
}

/// TPML_PCR_SELECTION.
#[derive(Debug)]
pub struct TpmlPcrSelection {
    pub items: Vec<PcrSelection>,
}

impl TpmlPcrSelection {
    /// The first `n` selections, one after the other.
    pub open spec fn items_octets(s: Seq<PcrSelection>) -> Seq<u8>
        decreases s.len(),
    {
        if s.len() == 0 {
            Seq::empty()
        } else {
            Self::items_octets(s.drop_last()) + s.last().octets()
        }
    }

    /// The canonical form of a list.
    pub open spec fn octets_of(s: Seq<PcrSelection>) -> Seq<u8> {
        octets32(s.len() as u32) + Self::items_octets(s)
    }

    /// `n` selections from `at` on.
    pub open spec fn parse_items(d: Seq<u8>, at: int, n: nat) -> Parsed<Seq<PcrSelection>>
        decreases n,
    {
        if n == 0 {
            Ok((Seq::empty(), at))
        } else {
            match Self::parse_items(d, at, (n - 1) as nat) {
                Err(e) => Err(e),
                Ok((s, mid)) => match PcrSelection::parse(d, mid) {
                    Err(e) => Err(e),
                    Ok((v, next)) => Ok((s.push(v), next)),
                },
            }
        }
    }

    /// The list at `at`.
    pub open spec fn parse(d: Seq<u8>, at: int) -> Parsed<Seq<PcrSelection>> {
        if at + 4 > d.len() {
            Err(TpmRc(rc::INSUFFICIENT))
        } else if be32(d, at) > config::HASH_COUNT {
            Err(TpmRc(rc::SIZE))
        } else {
            Self::parse_items(d, at + 4, be32(d, at) as nat)
        }
    }

    /// Write the canonical form.
    pub fn marshal(&self, w: &mut Writer)
        requires
            self.items@.len() <= 0xFFFF_FFFF,
        ensures
            final(w).written() == old(w).written() + Self::octets_of(self.items@),
            final(w).good() == old(w).good(),
    {
        w.u32(self.items.len() as u32);
        let mut i: usize = 0;
        let ghost head = w.written();
        while i < self.items.len()
            invariant
                i <= self.items@.len(),
                w.written() == head + Self::items_octets(self.items@.take(i as int)),
                w.good() == old(w).good(),
            decreases self.items@.len() - i,
        {
            let ghost before = w.written();
            self.items[i].marshal(w);
            proof {
                let t = self.items@.take(i + 1);
                assert(t.drop_last() =~= self.items@.take(i as int));
                assert(t.last() == self.items@[i as int]);
                assert(w.written() =~= head + Self::items_octets(t));
            }
            i = i + 1;
        }
        assert(self.items@.take(i as int) =~= self.items@);
        assert(w.written() =~= old(w).written() + Self::octets_of(self.items@));
    }

    /// The canonical form.
    pub fn to_bytes(&self) -> (r: Vec<u8>)
        requires
            self.items@.len() <= 0xFFFF_FFFF,
        ensures
            r@ == Self::octets_of(self.items@),
    {
        let mut w = Writer::new();
        self.marshal(&mut w);
        assert(w.written() =~= Self::octets_of(self.items@));
        w.into_vec()
    }

    /// Read the canonical form.
    pub fn unmarshal(r: &mut Reader) -> (out: TpmResult<TpmlPcrSelection>)
        ensures
            final(r).data() == old(r).data(),
            0 <= old(r).at() <= final(r).at() <= final(r).data().len(),
            match Self::parse(old(r).data(), old(r).at()) {
                Ok((v, next)) => out is Ok && out->Ok_0.items@ == v && final(r).at() == next
                    && v.len() <= config::HASH_COUNT,
                Err(e) => out is Err && out->Err_0 == e,
            },
    {
        let count: u32 = r.u32()?;
        if count as usize > config::HASH_COUNT {
            return Err(TpmRc(rc::SIZE));
        }
        let ghost start = r.at();
        let mut items: Vec<PcrSelection> = Vec::new();
        let mut i: u32 = 0;
        while i < count
            invariant
                i <= count <= config::HASH_COUNT,
                items@.len() == i,
                r.data() == old(r).data(),
                0 <= old(r).at() <= r.at() <= r.data().len(),
                start == old(r).at() + 4,
                old(r).at() + 4 <= old(r).data().len(),
                count == be32(old(r).data(), old(r).at()),
                Self::parse_items(r.data(), start, i as nat) == Ok::<
                    (Seq<PcrSelection>, int),
                    TpmRc,
                >((items@, r.at())),
            decreases count - i,
        {
            match PcrSelection::unmarshal(r) {
                Ok(v) => {
                    items.push(v);
                },
                Err(e) => {
                    proof {
                        lemma_selections_stop(r.data(), start, i as nat, count as nat);
                    }
                    return Err(e);
                },
            }
            i = i + 1;
        }
        Ok(TpmlPcrSelection { items })
    }
}

proof fn lemma_selections_stop(d: Seq<u8>, at: int, i: nat, n: nat)
    requires
        i < n,
        TpmlPcrSelection::parse_items(d, at, i) is Ok,
        PcrSelection::parse(d, TpmlPcrSelection::parse_items(d, at, i)->Ok_0.1) is Err,
    ensures
        TpmlPcrSelection::parse_items(d, at, n) is Err,
        TpmlPcrSelection::parse_items(d, at, n)->Err_0 == PcrSelection::parse(
            d,
            TpmlPcrSelection::parse_items(d, at, i)->Ok_0.1,
        )->Err_0,
    decreases n,
{
    if n > i + 1 {
        lemma_selections_stop(d, at, i, (n - 1) as nat);
    }
}

/// TPML_DIGEST_VALUES.
#[derive(Debug)]
pub struct TpmlDigestValues {
    pub items: Vec<TpmtHa>,
}

/// An algorithm and a digest.
pub type Tagged = (u16, Seq<u8>);

/// What a list of digests holds.
pub open spec fn tagged(items: Seq<TpmtHa>) -> Seq<Tagged> {
    items.map_values(|h: TpmtHa| (h.hash_alg, h.digest@))
}

impl TpmlDigestValues {
    /// Digests one after the other.
    pub open spec fn items_octets(s: Seq<Tagged>) -> Seq<u8>
        decreases s.len(),
    {
        if s.len() == 0 {
            Seq::empty()
        } else {
            Self::items_octets(s.drop_last()) + (octets16(s.last().0) + s.last().1)
        }
    }

    /// The canonical form of a list.
    pub open spec fn octets_of(s: Seq<Tagged>) -> Seq<u8> {
        octets32(s.len() as u32) + Self::items_octets(s)
    }

    /// `n` digests from `at` on.
    pub open spec fn parse_items(d: Seq<u8>, at: int, n: nat) -> Parsed<Seq<Tagged>>
        decreases n,
    {
        if n == 0 {
            Ok((Seq::empty(), at))
        } else {
            match Self::parse_items(d, at, (n - 1) as nat) {
                Err(e) => Err(e),
                Ok((s, mid)) => match TpmtHa::parse(d, mid, true) {
                    Err(e) => Err(e),
                    Ok((v, next)) => Ok((s.push(v), next)),
                },
            }
        }
    }

    /// The list at `at`.
    pub open spec fn parse(d: Seq<u8>, at: int) -> Parsed<Seq<Tagged>> {
        if at + 4 > d.len() {
            Err(TpmRc(rc::INSUFFICIENT))
        } else if be32(d, at) > config::HASH_COUNT {
            Err(TpmRc(rc::SIZE))
        } else {
            Self::parse_items(d, at + 4, be32(d, at) as nat)
        }
    }

    /// Write the canonical form.
    pub fn marshal(&self, w: &mut Writer)
        requires
            self.items@.len() <= 0xFFFF_FFFF,
        ensures
            final(w).written() == old(w).written() + Self::octets_of(tagged(self.items@)),
            final(w).good() == old(w).good(),
    {
        w.u32(self.items.len() as u32);
        let mut i: usize = 0;
        let ghost head = w.written();
        let ghost all = tagged(self.items@);
        assert(all.take(0) =~= Seq::<Tagged>::empty());
        while i < self.items.len()
            invariant
                i <= self.items@.len(),
                all == tagged(self.items@),
                w.written() == head + Self::items_octets(all.take(i as int)),
                w.good() == old(w).good(),
            decreases self.items@.len() - i,
        {
            self.items[i].marshal(w);
            proof {
                let t = all.take(i + 1);
                assert(t.drop_last() =~= all.take(i as int));
                assert(t.last() == (self.items@[i as int].hash_alg, self.items@[i as int].digest@));
                assert(w.written() =~= head + Self::items_octets(t));
            }
            i = i + 1;
        }
        assert(all.take(i as int) =~= all);
        assert(w.written() =~= old(w).written() + Self::octets_of(all));
    }

    /// Read the canonical form.
    pub fn unmarshal(r: &mut Reader) -> (out: TpmResult<TpmlDigestValues>)
        ensures
            final(r).data() == old(r).data(),
            0 <= old(r).at() <= final(r).at() <= final(r).data().len(),
            match Self::parse(old(r).data(), old(r).at()) {
                Ok((v, next)) => out is Ok && tagged(out->Ok_0.items@) == v && final(r).at()
                    == next && forall|i: int|
                    0 <= i < v.len() ==> (#[trigger] out->Ok_0.items@[i]).valid(),
                Err(e) => out is Err && out->Err_0 == e,
            },
    {
        let count: u32 = r.u32()?;
        if count as usize > config::HASH_COUNT {
            return Err(TpmRc(rc::SIZE));
        }
        let ghost start = r.at();
        let mut items: Vec<TpmtHa> = Vec::new();
        let mut i: u32 = 0;
        assert(tagged(items@) =~= Seq::<Tagged>::empty());
        while i < count
            invariant
                i <= count <= config::HASH_COUNT,
                items@.len() == i,
                r.data() == old(r).data(),
                0 <= old(r).at() <= r.at() <= r.data().len(),
                start == old(r).at() + 4,
                old(r).at() + 4 <= old(r).data().len(),
                count == be32(old(r).data(), old(r).at()),
                forall|j: int| 0 <= j < i ==> (#[trigger] items@[j]).valid(),
                Self::parse_items(r.data(), start, i as nat) == Ok::<(Seq<Tagged>, int), TpmRc>(
                    (tagged(items@), r.at()),
                ),
            decreases count - i,
        {
            let ghost before = items@;
            match TpmtHa::unmarshal(r, true) {
                Ok(v) => {
                    items.push(v);
                    assert(tagged(items@) =~= tagged(before).push((v.hash_alg, v.digest@)));
                },
                Err(e) => {
                    proof {
                        lemma_digests_stop(r.data(), start, i as nat, count as nat);
                    }
                    return Err(e);
                },
            }
            i = i + 1;
        }
        Ok(TpmlDigestValues { items })
    }
}

proof fn lemma_digests_stop(d: Seq<u8>, at: int, i: nat, n: nat)
    requires
        i < n,
        TpmlDigestValues::parse_items(d, at, i) is Ok,
        TpmtHa::parse(d, TpmlDigestValues::parse_items(d, at, i)->Ok_0.1, true) is Err,
    ensures
        TpmlDigestValues::parse_items(d, at, n) is Err,
        TpmlDigestValues::parse_items(d, at, n)->Err_0 == TpmtHa::parse(
            d,
            TpmlDigestValues::parse_items(d, at, i)->Ok_0.1,
            true,
        )->Err_0,
    decreases n,
{
    if n > i + 1 {
        lemma_digests_stop(d, at, i, (n - 1) as nat);
    }
}

/// TPML_DIGEST.
#[derive(Debug)]
pub struct TpmlDigest {
    pub digests: Vec<Tpm2bDigest>,
}

/// What a list of digests holds.
pub open spec fn contents(items: Seq<Tpm2bDigest>) -> Seq<Seq<u8>> {
    items.map_values(|b: Tpm2bDigest| b@)
}

impl TpmlDigest {
    /// The most digests a list holds.
    pub const MAX: usize = 8;

    /// `n` digests from `at` on.
    pub open spec fn parse_items(d: Seq<u8>, at: int, n: nat) -> Parsed<Seq<Seq<u8>>>
        decreases n,
    {
        if n == 0 {
            Ok((Seq::empty(), at))
        } else {
            match Self::parse_items(d, at, (n - 1) as nat) {
                Err(e) => Err(e),
                Ok((s, mid)) => match parse_sized(d, mid, 64) {
                    Err(e) => Err(e),
                    Ok((v, next)) => Ok((s.push(v), next)),
                },
            }
        }
    }

    /// The list at `at`, which holds at least two digests.
    pub open spec fn parse(d: Seq<u8>, at: int) -> Parsed<Seq<Seq<u8>>> {
        if at + 4 > d.len() {
            Err(TpmRc(rc::INSUFFICIENT))
        } else if be32(d, at) < 2 || be32(d, at) > 8 {
            Err(TpmRc(rc::SIZE))
        } else {
            Self::parse_items(d, at + 4, be32(d, at) as nat)
        }
    }

    /// Read the canonical form.
    pub fn unmarshal(r: &mut Reader) -> (out: TpmResult<TpmlDigest>)
        ensures
            final(r).data() == old(r).data(),
            0 <= old(r).at() <= final(r).at() <= final(r).data().len(),
            match Self::parse(old(r).data(), old(r).at()) {
                Ok((v, next)) => out is Ok && contents(out->Ok_0.digests@) == v && final(r).at()
                    == next,
                Err(e) => out is Err && out->Err_0 == e,
            },
    {
        let count: u32 = r.u32()?;
        if count < 2 || count > 8 {
            return Err(TpmRc(rc::SIZE));
        }
        let ghost start = r.at();
        let mut items: Vec<Tpm2bDigest> = Vec::new();
        let mut i: u32 = 0;
        assert(contents(items@) =~= Seq::<Seq<u8>>::empty());
        while i < count
            invariant
                i <= count <= 8,
                2 <= count,
                items@.len() == i,
                r.data() == old(r).data(),
                0 <= old(r).at() <= r.at() <= r.data().len(),
                start == old(r).at() + 4,
                old(r).at() + 4 <= old(r).data().len(),
                count == be32(old(r).data(), old(r).at()),
                Self::parse_items(r.data(), start, i as nat) == Ok::<(Seq<Seq<u8>>, int), TpmRc>(
                    (contents(items@), r.at()),
                ),
            decreases count - i,
        {
            let ghost before = items@;
            match Tpm2bDigest::unmarshal(r) {
                Ok(v) => {
                    items.push(v);
                    assert(contents(items@) =~= contents(before).push(v@));
                },
                Err(e) => {
                    proof {
                        lemma_contents_stop(r.data(), start, i as nat, count as nat);
                    }
                    return Err(e);
                },
            }
            i = i + 1;
        }
        Ok(TpmlDigest { digests: items })
    }
}

proof fn lemma_contents_stop(d: Seq<u8>, at: int, i: nat, n: nat)
    requires
        i < n,
        TpmlDigest::parse_items(d, at, i) is Ok,
        parse_sized(d, TpmlDigest::parse_items(d, at, i)->Ok_0.1, 64) is Err,
    ensures
        TpmlDigest::parse_items(d, at, n) is Err,
        TpmlDigest::parse_items(d, at, n)->Err_0 == parse_sized(
            d,
            TpmlDigest::parse_items(d, at, i)->Ok_0.1,
            64,
        )->Err_0,
    decreases n,
{
    if n > i + 1 {
        lemma_contents_stop(d, at, i, (n - 1) as nat);
    }
}

/// TPML_ALG, and the other lists of UINT16 values.
#[derive(Debug)]
pub struct TpmlAlg {
    pub items: Vec<u16>,
}

impl TpmlAlg {
    /// How many algorithms a list holds.
    pub const MAX: usize = 64;

    /// The items from `at` on.
    pub open spec fn items_at(d: Seq<u8>, at: int, n: nat) -> Seq<u16> {
        Seq::new(n, |i: int| be16(d, at + 2 * i))
    }

    /// What the canonical form at `at` holds.
    pub open spec fn parse(d: Seq<u8>, at: int) -> Parsed<Seq<u16>> {
        if at + 4 > d.len() {
            Err(TpmRc(rc::INSUFFICIENT))
        } else if be32(d, at) > Self::MAX {
            Err(TpmRc(rc::SIZE))
        } else if at + 4 + 2 * be32(d, at) > d.len() {
            Err(TpmRc(rc::INSUFFICIENT))
        } else {
            Ok((Self::items_at(d, at + 4, be32(d, at) as nat), at + 4 + 2 * be32(d, at)))
        }
    }

    /// The canonical form of the items.
    pub open spec fn items_octets(s: Seq<u16>) -> Seq<u8>
        decreases s.len(),
    {
        if s.len() == 0 {
            Seq::empty()
        } else {
            Self::items_octets(s.drop_last()) + octets16(s.last())
        }
    }

    /// The canonical form.
    pub open spec fn octets_of(s: Seq<u16>) -> Seq<u8> {
        octets32(s.len() as u32) + Self::items_octets(s)
    }

    /// Read the canonical form.
    pub fn unmarshal(r: &mut Reader) -> (out: TpmResult<TpmlAlg>)
        ensures
            final(r).data() == old(r).data(),
            0 <= old(r).at() <= final(r).at() <= final(r).data().len(),
            match Self::parse(old(r).data(), old(r).at()) {
                Ok((v, next)) => out is Ok && out->Ok_0.items@ == v && final(r).at() == next,
                Err(e) => out is Err && out->Err_0 == e,
            },
    {
        let count: u32 = r.u32()?;
        if count > Self::MAX as u32 {
            return Err(TpmRc(rc::SIZE));
        }
        if (count as usize) * 2 > r.remaining() {
            return Err(TpmRc(rc::INSUFFICIENT));
        }
        let ghost start = r.at();
        let ghost d = r.data();
        let mut items: Vec<u16> = Vec::new();
        let mut i: u32 = 0;
        while i < count
            invariant
                i <= count <= 64,
                r.data() == d,
                r.at() == start + 2 * i,
                start + 2 * count <= d.len(),
                items@ == Self::items_at(d, start, i as nat),
            decreases count - i,
        {
            let v: u16 = r.u16()?;
            items.push(v);
            i = i + 1;
            assert(items@ =~= Self::items_at(d, start, i as nat));
        }
        Ok(TpmlAlg { items })
    }

    /// Write the canonical form.
    pub fn marshal(&self, w: &mut Writer)
        requires
            self.items@.len() <= 0xFFFF_FFFF,
        ensures
            final(w).written() == old(w).written() + Self::octets_of(self.items@),
            final(w).good() == old(w).good(),
    {
        w.u32(self.items.len() as u32);
        let ghost base = w.written();
        let mut i: usize = 0;
        assert(self.items@.take(0) =~= Seq::<u16>::empty());
        assert(base + Self::items_octets(self.items@.take(0)) =~= base);
        while i < self.items.len()
            invariant
                i <= self.items@.len(),
                w.good() == old(w).good(),
                w.written() == base + Self::items_octets(self.items@.take(i as int)),
            decreases self.items@.len() - i,
        {
            w.u16(self.items[i]);
            i = i + 1;
            proof {
                let s = self.items@.take(i as int);
                assert(s.drop_last() =~= self.items@.take(i - 1));
                assert(w.written() =~= base + Self::items_octets(s));
            }
        }
        assert(self.items@.take(i as int) =~= self.items@);
        assert(w.written() =~= old(w).written() + Self::octets_of(self.items@));
    }
}

/// TPML_CC, TPML_HANDLE and the other lists of UINT32 values.
#[derive(Debug)]
pub struct TpmlCc {
    pub items: Vec<u32>,
}

impl TpmlCc {
    /// How many values a list holds.
    pub const MAX: usize = 254;

    /// The items from `at` on.
    pub open spec fn items_at(d: Seq<u8>, at: int, n: nat) -> Seq<u32> {
        Seq::new(n, |i: int| be32(d, at + 4 * i))
    }

    /// What the canonical form at `at` holds.
    pub open spec fn parse(d: Seq<u8>, at: int) -> Parsed<Seq<u32>> {
        if at + 4 > d.len() {
            Err(TpmRc(rc::INSUFFICIENT))
        } else if be32(d, at) > Self::MAX {
            Err(TpmRc(rc::SIZE))
        } else if at + 4 + 4 * be32(d, at) > d.len() {
            Err(TpmRc(rc::INSUFFICIENT))
        } else {
            Ok((Self::items_at(d, at + 4, be32(d, at) as nat), at + 4 + 4 * be32(d, at)))
        }
    }

    /// The canonical form of the items.
    pub open spec fn items_octets(s: Seq<u32>) -> Seq<u8>
        decreases s.len(),
    {
        if s.len() == 0 {
            Seq::empty()
        } else {
            Self::items_octets(s.drop_last()) + octets32(s.last())
        }
    }

    /// The canonical form.
    pub open spec fn octets_of(s: Seq<u32>) -> Seq<u8> {
        octets32(s.len() as u32) + Self::items_octets(s)
    }

    /// Read the canonical form.
    pub fn unmarshal(r: &mut Reader) -> (out: TpmResult<TpmlCc>)
        ensures
            final(r).data() == old(r).data(),
            0 <= old(r).at() <= final(r).at() <= final(r).data().len(),
            match Self::parse(old(r).data(), old(r).at()) {
                Ok((v, next)) => out is Ok && out->Ok_0.items@ == v && final(r).at() == next,
                Err(e) => out is Err && out->Err_0 == e,
            },
    {
        let count: u32 = r.u32()?;
        if count > Self::MAX as u32 {
            return Err(TpmRc(rc::SIZE));
        }
        if (count as usize) * 4 > r.remaining() {
            return Err(TpmRc(rc::INSUFFICIENT));
        }
        let ghost start = r.at();
        let ghost d = r.data();
        let mut items: Vec<u32> = Vec::new();
        let mut i: u32 = 0;
        while i < count
            invariant
                i <= count <= 254,
                r.data() == d,
                r.at() == start + 4 * i,
                start + 4 * count <= d.len(),
                items@ == Self::items_at(d, start, i as nat),
            decreases count - i,
        {
            let v: u32 = r.u32()?;
            items.push(v);
            i = i + 1;
            assert(items@ =~= Self::items_at(d, start, i as nat));
        }
        Ok(TpmlCc { items })
    }

    /// Write the canonical form.
    pub fn marshal(&self, w: &mut Writer)
        requires
            self.items@.len() <= 0xFFFF_FFFF,
        ensures
            final(w).written() == old(w).written() + Self::octets_of(self.items@),
            final(w).good() == old(w).good(),
    {
        w.u32(self.items.len() as u32);
        let ghost base = w.written();
        let mut i: usize = 0;
        assert(self.items@.take(0) =~= Seq::<u32>::empty());
        assert(base + Self::items_octets(self.items@.take(0)) =~= base);
        while i < self.items.len()
            invariant
                i <= self.items@.len(),
                w.good() == old(w).good(),
                w.written() == base + Self::items_octets(self.items@.take(i as int)),
            decreases self.items@.len() - i,
        {
            w.u32(self.items[i]);
            i = i + 1;
            proof {
                let s = self.items@.take(i as int);
                assert(s.drop_last() =~= self.items@.take(i - 1));
                assert(w.written() =~= base + Self::items_octets(s));
            }
        }
        assert(self.items@.take(i as int) =~= self.items@);
        assert(w.written() =~= old(w).written() + Self::octets_of(self.items@));
    }
}

/// A selection takes six octets.
pub proof fn lemma_selections_len(s: Seq<PcrSelection>)
    ensures
        TpmlPcrSelection::octets_of(s).len() == 4 + 6 * s.len(),
        TpmlPcrSelection::items_octets(s).len() == 6 * s.len(),
    decreases s.len(),
{
    if s.len() > 0 {
        lemma_selections_len(s.drop_last());
    }
}

} // verus!
