//! Integrity collection.

use vstd::prelude::*;

use super::dispatch::{Request, RequestView, Response};
use super::execute::respond;
use super::hierarchy::{fitting_policy, policy_fits};
use super::wire::{
    alone, answers_nothing, answers_with, fails, nothing, raw_u16, raw_u32, take_sized,
};
use crate::tpm::config;
use crate::tpm::constants::{alg, hc, rc, rh};
use crate::tpm::crypto::hash::{size_of, supported};
use crate::tpm::engine::nv_store::total;
use crate::tpm::engine::pcr::{
    bank_extended, bank_selected, counts, next_count, pair_views, spec_admits,
    spec_extend_localities, spec_reset_localities, BankView, PcrBanks,
};
use crate::tpm::engine::state::{allocatable, TpmState};
use crate::tpm::error::{TpmRc, TpmResult};
use crate::tpm::marshal::{parse_sized, sized, Writer};
use crate::tpm::structures::base::TpmtHa;
use crate::tpm::structures::lists::{
    is_set, tagged, PcrSelect, PcrSelection, Tagged, TpmlDigestValues, TpmlPcrSelection,
};
use crate::util::bytes::{octets32, to_vec};

verus! {

/// How many digests one response returns.
pub const READ_LIMIT: usize = 8;

/// The register a handle names, or TPM_RC_VALUE.
pub fn pcr_index(handle: u32) -> (r: TpmResult<u16>)
    ensures
        r == (if handle <= hc::PCR_LAST {
            Ok::<u16, TpmRc>(handle as u16)
        } else {
            Err::<u16, TpmRc>(TpmRc(rc::VALUE))
        }),
        r matches Ok(i) ==> i < 24 && i == handle,
{
    if handle > hc::PCR_LAST {
        Err(TpmRc(rc::VALUE))
    } else {
        Ok(handle as u16)
    }
}

/// The banks once register `index` has taken the digests in.
pub open spec fn extended(
    after: PcrBanks,
    before: PcrBanks,
    index: int,
    pairs: Seq<(u16, Seq<u8>)>,
) -> bool {
    &&& after.held() == before.held().map_values(|b: BankView| bank_extended(b, index, pairs))
    &&& after.counter == (if counts(index) {
        next_count(before.counter)
    } else {
        before.counter
    })
}

/// True when one of the digests names no hash.
pub open spec fn lacks_a_hash(pairs: Seq<(u16, Seq<u8>)>) -> bool {
    exists|i: int| 0 <= i < pairs.len() && (#[trigger] pairs[i]).0 == alg::NULL
}

/// TPM2_PCR_Extend.
pub open spec fn pcr_extend_ran(
    after: TpmState,
    before: TpmState,
    req: RequestView,
    r: TpmResult<Response>,
) -> bool {
    match req.handle(0) {
        Err(e) => fails(r, e) && after == before,
        Ok(h) => if h > hc::PCR_LAST {
            fails(r, TpmRc(rc::VALUE).for_handle(1)) && after == before
        } else {
            match alone(req.parameters, TpmlDigestValues::parse(req.parameters, 0)) {
                Err(e) => fails(r, e) && after == before,
                Ok(pairs) => if lacks_a_hash(pairs) {
                    fails(r, TpmRc(rc::HASH).for_parameter(1)) && after == before
                } else if !spec_admits(spec_extend_localities(h as int), req.locality) {
                    fails(r, TpmRc(rc::LOCALITY)) && after == before
                } else {
                    &&& answers_nothing(r)
                    &&& after == (TpmState { pcr: after.pcr, ..before })
                    &&& extended(after.pcr, before.pcr, h as int, pairs)
                },
            }
        },
    }
}

/// The digests of a list as pairs.
fn to_pairs(items: &[TpmtHa]) -> (r: Vec<(u16, Vec<u8>)>)
    ensures
        pair_views(r@) == tagged(items@),
{
    let mut out: Vec<(u16, Vec<u8>)> = Vec::new();
    let mut i: usize = 0;
    while i < items.len()
        invariant
            i <= items@.len(),
            out@.len() == i,
            forall|j: int|
                0 <= j < i ==> (#[trigger] out@[j]).0 == items@[j].hash_alg && out@[j].1@
                    == items@[j].digest@,
        decreases items@.len() - i,
    {
        out.push((items[i].hash_alg, to_vec(items[i].digest.as_slice())));
        i = i + 1;
    }
    assert(pair_views(out@) =~= tagged(items@));
    out
}

/// True when one of the digests names no hash.
fn names_no_hash(pairs: &[(u16, Vec<u8>)]) -> (r: bool)
    ensures
        r == lacks_a_hash(pair_views(pairs@)),
{
    let mut i: usize = 0;
    while i < pairs.len()
        invariant
            i <= pairs@.len(),
            forall|j: int| 0 <= j < i ==> (#[trigger] pairs@[j]).0 != alg::NULL,
        decreases pairs@.len() - i,
    {
        if pairs[i].0 == alg::NULL {
            assert(pair_views(pairs@)[i as int].0 == alg::NULL);
            return true;
        }
        i = i + 1;
    }
    false
}

/// TPM2_PCR_Extend.
pub fn pcr_extend(state: &mut TpmState, request: &Request) -> (r: TpmResult<Response>)
    requires
        old(state).wf(),
    ensures
        final(state).wf(),
        pcr_extend_ran(*final(state), *old(state), request@, r),
{
    let handle: u32 = request.handle(0)?;
    let index: u16 = match pcr_index(handle) {
        Ok(i) => i,
        Err(e) => {
            return Err(e.with_handle(1));
        },
    };
    let mut reader = request.reader();
    let digests: TpmlDigestValues = TpmlDigestValues::unmarshal(&mut reader)?;
    reader.expect_end()?;
    let pairs: Vec<(u16, Vec<u8>)> = to_pairs(digests.items.as_slice());
    if names_no_hash(pairs.as_slice()) {
        return Err(TpmRc(rc::HASH).with_parameter(1));
    }
    state.pcr.extend(index, request.locality, pairs.as_slice())?;
    nothing()
}

/// TPM2_PCR_Event. With the null handle the event is only hashed.
pub open spec fn pcr_event_ran(
    after: TpmState,
    before: TpmState,
    req: RequestView,
    r: TpmResult<Response>,
) -> bool {
    match req.handle(0) {
        Err(e) => fails(r, e) && after == before,
        Ok(h) => match alone(req.parameters, parse_sized(req.parameters, 0, 1024)) {
            Err(e) => fails(r, e) && after == before,
            Ok(event) => {
                let digests = before.pcr.digests_of(event);
                if h == rh::NULL {
                    answers_with(r, TpmlDigestValues::octets_of(digests)) && after == before
                } else if h > hc::PCR_LAST {
                    fails(r, TpmRc(rc::VALUE).for_handle(1)) && after == before
                } else if !spec_admits(spec_extend_localities(h as int), req.locality) {
                    fails(r, TpmRc(rc::LOCALITY)) && after == before
                } else {
                    &&& answers_with(r, TpmlDigestValues::octets_of(digests))
                    &&& after == (TpmState { pcr: after.pcr, ..before })
                    &&& extended(after.pcr, before.pcr, h as int, digests)
                }
            },
        },
    }
}

/// Write pairs of an algorithm and a digest as a list.
pub fn digest_list(pairs: Vec<(u16, Vec<u8>)>) -> (r: TpmResult<Response>)
    requires
        pairs@.len() <= 0xFFFF_FFFF,
    ensures
        answers_with(r, TpmlDigestValues::octets_of(pair_views(pairs@))),
{
    let mut w = Writer::new();
    w.u32(pairs.len() as u32);
    let ghost head = w.written();
    let ghost all = pair_views(pairs@);
    let mut i: usize = 0;
    assert(all.take(0) =~= Seq::<Tagged>::empty());
    assert(head + TpmlDigestValues::items_octets(all.take(0)) =~= head);
    while i < pairs.len()
        invariant
            i <= pairs@.len(),
            all == pair_views(pairs@),
            w.good(),
            w.written() == head + TpmlDigestValues::items_octets(all.take(i as int)),
        decreases pairs@.len() - i,
    {
        w.u16(pairs[i].0);
        w.bytes(pairs[i].1.as_slice());
        proof {
            let t = all.take(i + 1);
            assert(t.drop_last() =~= all.take(i as int));
            assert(t.last() == (pairs@[i as int].0, pairs@[i as int].1@));
            assert(w.written() =~= head + TpmlDigestValues::items_octets(t));
        }
        i = i + 1;
    }
    assert(all.take(i as int) =~= all);
    assert(w.written() =~= TpmlDigestValues::octets_of(all));
    respond(w)
}

/// TPM2_PCR_Event.
pub fn pcr_event(state: &mut TpmState, request: &Request) -> (r: TpmResult<Response>)
    requires
        old(state).wf(),
    ensures
        final(state).wf(),
        pcr_event_ran(*final(state), *old(state), request@, r),
{
    let handle: u32 = request.handle(0)?;
    let mut reader = request.reader();
    let event: Vec<u8> = take_sized::<1024>(&mut reader)?;
    reader.expect_end()?;
    proof {
        reveal(PcrBanks::wf);
    }
    if handle == rh::NULL {
        let digests: Vec<(u16, Vec<u8>)> = state.pcr.digests(event.as_slice());
        assert(pair_views(digests@).len() == digests@.len());
        return digest_list(digests);
    }
    let index: u16 = match pcr_index(handle) {
        Ok(i) => i,
        Err(e) => {
            return Err(e.with_handle(1));
        },
    };
    let digests: Vec<(u16, Vec<u8>)> = state.pcr.event(
        index,
        request.locality,
        event.as_slice(),
    )?;
    assert(pair_views(digests@).len() == digests@.len());
    digest_list(digests)
}

/// The lowest registers of a selection, at most `left` of those below `n`, and
/// how many more may follow.
pub open spec fn trim_mask(mask: u32, left: nat, n: nat) -> (u32, nat)
    decreases n,
{
    if n == 0 {
        (0, left)
    } else {
        let before = trim_mask(mask, left, (n - 1) as nat);
        if is_set(mask, n - 1) && before.1 > 0 {
            (before.0 | (1u32 << ((n - 1) as u32)), (before.1 - 1) as nat)
        } else {
            before
        }
    }
}

/// Selections cut to the first `left` registers, and how many more may follow.
pub open spec fn trimmed_to(items: Seq<PcrSelection>, left: nat) -> (Seq<PcrSelection>, nat)
    decreases items.len(),
{
    if items.len() == 0 {
        (Seq::empty(), left)
    } else {
        let before = trimmed_to(items.drop_last(), left);
        let last = trim_mask(items.last().select.0, before.1, 24);
        (
            before.0.push(
                PcrSelection { hash_alg: items.last().hash_alg, select: PcrSelect(last.0) },
            ),
            last.1,
        )
    }
}

/// The selections that TPM2_PCR_Read answers: without registers there are none
/// of, and cut to what one response returns.
pub open spec fn answered(pcr: PcrBanks, items: Seq<PcrSelection>) -> Seq<PcrSelection> {
    let known = items.map_values(|s: PcrSelection| pcr.filtered(s));
    if pcr.all_selected(known).len() > READ_LIMIT {
        trimmed_to(known, READ_LIMIT as nat).0
    } else {
        known
    }
}

/// Digests one after the other, each behind its size.
pub open spec fn sized_all(values: Seq<Seq<u8>>) -> Seq<u8>
    decreases values.len(),
{
    if values.len() == 0 {
        Seq::empty()
    } else {
        sized_all(values.drop_last()) + sized(values.last())
    }
}

/// What TPM2_PCR_Read returns: the counter, the selections and the values.
pub open spec fn read_octets(pcr: PcrBanks, items: Seq<PcrSelection>) -> Seq<u8> {
    let chosen = answered(pcr, items);
    let values = pcr.all_selected(chosen);
    octets32(pcr.counter) + TpmlPcrSelection::octets_of(chosen) + octets32(values.len() as u32)
        + sized_all(values)
}

/// TPM2_PCR_Read.
pub open spec fn pcr_read_ran(state: TpmState, req: RequestView, r: TpmResult<Response>) -> bool {
    match alone(req.parameters, TpmlPcrSelection::parse(req.parameters, 0)) {
        Err(e) => fails(r, e),
        Ok(items) => answers_with(r, read_octets(state.pcr, items)),
    }
}

proof fn lemma_bit(m: u32, k: u32, j: u32)
    by (bit_vector)
    requires
        k < 32,
        j < 32,
    ensures
        ((m | (1u32 << k)) >> j) & 1 == (if j == k {
            1
        } else {
            (m >> j) & 1
        }),
        (0u32 >> j) & 1 == 0,
{
}

/// Only the registers below `n` are kept, and each takes one place.
proof fn lemma_trim_mask(b: BankView, mask: u32, left: nat, n: nat, m: nat)
    requires
        m <= n <= 24,
    ensures
        trim_mask(mask, left, n).1 <= left,
        bank_selected(b, trim_mask(mask, left, n).0, m).len() == left - trim_mask(mask, left, m).1,
    decreases n, m,
{
    if n == 0 {
    } else {
        let before = trim_mask(mask, left, (n - 1) as nat);
        let now = trim_mask(mask, left, n);
        if m < n {
            lemma_trim_mask(b, mask, left, (n - 1) as nat, m);
            lemma_same_below(b, before.0, now.0, m, (n - 1) as nat);
        } else {
            lemma_trim_mask(b, mask, left, (n - 1) as nat, (n - 1) as nat);
            lemma_same_below(b, before.0, now.0, (n - 1) as nat, (n - 1) as nat);
            lemma_clear_above(mask, left, (n - 1) as nat, n - 1);
            lemma_bit(before.0, (n - 1) as u32, (n - 1) as u32);
        }
    }
}

/// Registers that were not looked at are not kept.
proof fn lemma_clear_above(mask: u32, left: nat, n: nat, j: int)
    requires
        n <= j < 24,
    ensures
        !is_set(trim_mask(mask, left, n).0, j),
    decreases n,
{
    if n == 0 {
        lemma_bit(0, 0, j as u32);
    } else {
        lemma_clear_above(mask, left, (n - 1) as nat, j);
        lemma_bit(trim_mask(mask, left, (n - 1) as nat).0, (n - 1) as u32, j as u32);
    }
}

/// One register more makes no difference to those below it.
proof fn lemma_same_below(b: BankView, before: u32, now: u32, m: nat, k: nat)
    requires
        m <= k < 24,
        now == before || now == before | (1u32 << (k as u32)),
    ensures
        bank_selected(b, now, m) == bank_selected(b, before, m),
    decreases m,
{
    if m > 0 {
        lemma_same_below(b, before, now, (m - 1) as nat, k);
        lemma_bit(before, k as u32, (m - 1) as u32);
    }
}

proof fn lemma_trimmed(pcr: PcrBanks, items: Seq<PcrSelection>, left: nat)
    ensures
        pcr.all_selected(trimmed_to(items, left).0).len() + trimmed_to(items, left).1 <= left,
    decreases items.len(),
{
    if items.len() > 0 {
        lemma_trimmed(pcr, items.drop_last(), left);
        let before = trimmed_to(items.drop_last(), left);
        let now = trimmed_to(items, left);
        assert(now.0.drop_last() =~= before.0);
        let s = now.0.last();
        lemma_trim_mask(
            pcr.bank_of(s.hash_alg),
            items.last().select.0,
            before.1,
            24,
            24,
        );
    }
}

/// TPM2_PCR_Read never returns more digests than one response holds.
pub proof fn law_a_read_returns_no_more_than_fits(pcr: PcrBanks, items: Seq<PcrSelection>)
    ensures
        pcr.all_selected(answered(pcr, items)).len() <= READ_LIMIT,
{
    let known = items.map_values(|s: PcrSelection| pcr.filtered(s));
    lemma_trimmed(pcr, known, READ_LIMIT as nat);
}

fn cut_mask(mask: u32, left: usize) -> (r: (u32, usize))
    ensures
        (r.0, r.1 as nat) == trim_mask(mask, left as nat, 24),
{
    let select = PcrSelect(mask);
    let mut kept: u32 = 0;
    let mut rest: usize = left;
    let mut i: u16 = 0;
    while i < 24
        invariant
            i <= 24,
            select == PcrSelect(mask),
            (kept, rest as nat) == trim_mask(mask, left as nat, i as nat),
        decreases 24 - i,
    {
        if select.is_selected(i) && rest > 0 {
            kept = kept | (1u32 << (i as u32));
            rest = rest - 1;
        }
        i = i + 1;
    }
    (kept, rest)
}

fn cut(items: &[PcrSelection], left: usize) -> (r: Vec<PcrSelection>)
    ensures
        r@ == trimmed_to(items@, left as nat).0,
        r@.len() == items@.len(),
{
    let mut out: Vec<PcrSelection> = Vec::new();
    let mut rest: usize = left;
    let mut i: usize = 0;
    assert(items@.take(0) =~= Seq::<PcrSelection>::empty());
    assert(out@ =~= Seq::<PcrSelection>::empty());
    while i < items.len()
        invariant
            i <= items@.len(),
            out@.len() == i,
            out@ == trimmed_to(items@.take(i as int), left as nat).0,
            rest == trimmed_to(items@.take(i as int), left as nat).1,
        decreases items@.len() - i,
    {
        proof {
            let t = items@.take(i + 1);
            assert(t.drop_last() =~= items@.take(i as int));
            assert(t.last() == items@[i as int]);
        }
        let kept: (u32, usize) = cut_mask(items[i].select.0, rest);
        out.push(PcrSelection { hash_alg: items[i].hash_alg, select: PcrSelect(kept.0) });
        rest = kept.1;
        i = i + 1;
    }
    assert(items@.take(i as int) =~= items@);
    out
}

fn write_sized_all(w: &mut Writer, values: &[Vec<u8>])
    requires
        forall|i: int| 0 <= i < values@.len() ==> (#[trigger] values@[i])@.len() <= 64,
    ensures
        final(w).good() == old(w).good(),
        final(w).written() == old(w).written() + sized_all(
            values@.map_values(|v: Vec<u8>| v@),
        ),
{
    let ghost head = w.written();
    let ghost f = |v: Vec<u8>| v@;
    let ghost all = values@.map_values(f);
    let mut i: usize = 0;
    assert(all.take(0) =~= Seq::<Seq<u8>>::empty());
    assert(head + sized_all(all.take(0)) =~= head);
    while i < values.len()
        invariant
            i <= values@.len(),
            f == (|v: Vec<u8>| v@),
            all == values@.map_values(f),
            forall|i: int| 0 <= i < values@.len() ==> (#[trigger] values@[i])@.len() <= 64,
            w.good() == old(w).good(),
            w.written() == head + sized_all(all.take(i as int)),
        decreases values@.len() - i,
    {
        assert(values@[i as int]@.len() <= 64);
        w.sized16(values[i].as_slice());
        proof {
            let t = all.take(i + 1);
            assert(t.drop_last() =~= all.take(i as int));
            assert(t.last() == values@[i as int]@);
            assert(w.written() =~= head + sized_all(t));
        }
        i = i + 1;
    }
    assert(all.take(i as int) =~= all);
}

/// TPM2_PCR_Read.
pub fn pcr_read(state: &TpmState, request: &Request) -> (r: TpmResult<Response>)
    requires
        state.wf(),
    ensures
        pcr_read_ran(*state, request@, r),
{
    let mut reader = request.reader();
    let requested: TpmlPcrSelection = TpmlPcrSelection::unmarshal(&mut reader)?;
    reader.expect_end()?;
    let known: Vec<PcrSelection> = state.pcr.filter_selection(requested.items.as_slice());
    let all: Vec<Vec<u8>> = state.pcr.read_selection(known.as_slice());
    assert(all@.map_values(|v: Vec<u8>| v@).len() == all@.len());
    let chosen: Vec<PcrSelection> = if all.len() > READ_LIMIT {
        cut(known.as_slice(), READ_LIMIT)
    } else {
        known
    };
    let values: Vec<Vec<u8>> = state.pcr.read_selection(chosen.as_slice());
    let ghost seen = values@.map_values(|v: Vec<u8>| v@);
    proof {
        law_a_read_returns_no_more_than_fits(state.pcr, requested.items@);
        assert(seen.len() == values@.len());
    }
    let mut w = Writer::new();
    w.u32(state.pcr.update_counter());
    let list = TpmlPcrSelection { items: chosen };
    list.marshal(&mut w);
    w.u32(values.len() as u32);
    write_sized_all(&mut w, values.as_slice());
    assert(w.written() =~= read_octets(state.pcr, requested.items@));
    respond(w)
}

/// The banks that the first `n` selections ask for, each once.
pub open spec fn banks_asked(items: Seq<PcrSelection>, n: nat) -> TpmResult<Seq<u16>>
    decreases n,
{
    if n == 0 {
        Ok(Seq::empty())
    } else {
        match banks_asked(items, (n - 1) as nat) {
            Err(e) => Err(e),
            Ok(list) => {
                let s = items[n - 1];
                if s.select.0 == 0 {
                    Ok(list)
                } else if !config::IMPLEMENTED_PCR_BANKS@.contains(s.hash_alg) {
                    Err(TpmRc(rc::HASH).for_parameter(1))
                } else if list.contains(s.hash_alg) {
                    Ok(list)
                } else {
                    Ok(list.push(s.hash_alg))
                }
            },
        }
    }
}

/// The banks that TPM2_PCR_Allocate is asked for.
pub open spec fn allocation(items: Seq<PcrSelection>) -> TpmResult<Seq<u16>> {
    match banks_asked(items, items.len()) {
        Err(e) => Err(e),
        Ok(list) => if list.len() == 0 {
            Err(TpmRc(rc::VALUE).for_parameter(1))
        } else if list.len() > config::HASH_COUNT {
            Err(TpmRc(rc::SIZE).for_parameter(1))
        } else {
            Ok(list)
        },
    }
}

/// TPM2_PCR_Allocate. The banks change at the next reset, and until then
/// TPM2_Shutdown(STATE) is not allowed.
pub open spec fn pcr_allocate_ran(
    after: TpmState,
    before: TpmState,
    req: RequestView,
    r: TpmResult<Response>,
) -> bool {
    match alone(req.parameters, TpmlPcrSelection::parse(req.parameters, 0)) {
        Err(e) => fails(r, e) && after == before,
        Ok(items) => match allocation(items) {
            Err(e) => fails(r, e) && after == before,
            Ok(list) => {
                &&& answers_with(
                    r,
                    seq![1u8] + octets32(24) + octets32((list.len() * 24) as u32) + octets32(
                        (config::NV_MEMORY_SIZE - total(before.nv.indices.listed())) as u32,
                    ),
                )
                &&& after == (TpmState {
                    pcr_allocation: after.pcr_allocation,
                    pcr_allocation_pending: true,
                    ..before
                })
                &&& after.pcr_allocation@ == list
            },
        },
    }
}

proof fn lemma_banks_stop(items: Seq<PcrSelection>, i: nat, n: nat)
    requires
        i <= n,
        banks_asked(items, i) is Err,
    ensures
        banks_asked(items, n) == banks_asked(items, i),
    decreases n,
{
    if i < n {
        lemma_banks_stop(items, i, (n - 1) as nat);
    }
}

proof fn lemma_pcr_bank(a: u16)
    requires
        config::IMPLEMENTED_PCR_BANKS@.contains(a),
    ensures
        supported(a),
{
    let s = config::IMPLEMENTED_PCR_BANKS@;
    let i = choose|i: int| 0 <= i < s.len() && s[i] == a;
    assert(i == 0 || i == 1 || i == 2 || i == 3);
}

/// The banks that the selections ask for, each once.
fn collect_banks(items: &[PcrSelection]) -> (r: TpmResult<Vec<u16>>)
    ensures
        match banks_asked(items@, items@.len()) {
            Ok(v) => {
                &&& r is Ok
                &&& r->Ok_0@ == v
                &&& forall|i: int| 0 <= i < v.len() ==> supported(#[trigger] v[i])
                &&& forall|i: int, j: int|
                    0 <= i < j < v.len() ==> #[trigger] v[i] != #[trigger] v[j]
            },
            Err(e) => r is Err && r->Err_0 == e,
        },
{
    let mut out: Vec<u16> = Vec::new();
    let mut i: usize = 0;
    assert(out@ =~= Seq::<u16>::empty());
    while i < items.len()
        invariant
            i <= items@.len(),
            banks_asked(items@, i as nat) == Ok::<Seq<u16>, TpmRc>(out@),
            forall|k: int| 0 <= k < out@.len() ==> supported(#[trigger] out@[k]),
            forall|k: int, j: int|
                0 <= k < j < out@.len() ==> #[trigger] out@[k] != #[trigger] out@[j],
        decreases items@.len() - i,
    {
        let s: PcrSelection = items[i];
        if !s.select.is_empty_selection() {
            if !config::in_list(config::IMPLEMENTED_PCR_BANKS.as_slice(), s.hash_alg) {
                proof {
                    lemma_banks_stop(items@, (i + 1) as nat, items@.len());
                }
                return Err(TpmRc(rc::HASH).with_parameter(1));
            }
            if !config::in_list(out.as_slice(), s.hash_alg) {
                proof {
                    lemma_pcr_bank(s.hash_alg);
                    assert forall|k: int| 0 <= k < out@.len() implies #[trigger] out@[k]
                        != s.hash_alg by {
                        assert(!out@.contains(s.hash_alg));
                    }
                }
                out.push(s.hash_alg);
            }
        }
        i = i + 1;
    }
    Ok(out)
}

/// TPM2_PCR_Allocate.
pub fn pcr_allocate(state: &mut TpmState, request: &Request) -> (r: TpmResult<Response>)
    requires
        old(state).wf(),
    ensures
        final(state).wf(),
        pcr_allocate_ran(*final(state), *old(state), request@, r),
{
    let mut reader = request.reader();
    let requested: TpmlPcrSelection = TpmlPcrSelection::unmarshal(&mut reader)?;
    reader.expect_end()?;
    let banks: Vec<u16> = collect_banks(requested.items.as_slice())?;
    if banks.len() == 0 {
        return Err(TpmRc(rc::VALUE).with_parameter(1));
    }
    if banks.len() > config::HASH_COUNT {
        return Err(TpmRc(rc::SIZE).with_parameter(1));
    }
    let size_needed: u32 = banks.len() as u32 * 24;
    let size_available: u32 = (config::NV_MEMORY_SIZE - state.nv.used()) as u32;
    let ghost list = banks@;
    state.pcr_allocation = banks;
    state.pcr_allocation_pending = true;
    assert(allocatable(state.pcr_allocation@));
    let mut w = Writer::new();
    w.u8(1);
    w.u32(24);
    w.u32(size_needed);
    w.u32(size_available);
    assert(w.written() =~= seq![1u8] + octets32(24) + octets32((list.len() * 24) as u32)
        + octets32((config::NV_MEMORY_SIZE - total(old(state).nv.indices.listed())) as u32));
    respond(w)
}

/// What TPM2_PCR_SetAuthPolicy is given.
pub open spec fn pcr_policy_input(p: Seq<u8>) -> TpmResult<(Seq<u8>, u16, u32)> {
    match parse_sized(p, 0, 64) {
        Err(e) => Err(e),
        Ok((policy, a)) => match raw_u16(p, a) {
            Err(e) => Err(e),
            Ok((hash_alg, b)) => match alone(p, raw_u32(p, b)) {
                Err(e) => Err(e),
                Ok(handle) => Ok((policy, hash_alg, handle)),
            },
        },
    }
}

/// TPM2_PCR_SetAuthPolicy.
pub open spec fn pcr_set_auth_policy_ran(
    after: TpmState,
    before: TpmState,
    req: RequestView,
    r: TpmResult<Response>,
) -> bool {
    match pcr_policy_input(req.parameters) {
        Err(e) => fails(r, e) && after == before,
        Ok((policy, hash_alg, handle)) => if handle > hc::PCR_LAST {
            fails(r, TpmRc(rc::VALUE).for_parameter(3)) && after == before
        } else {
            match policy_fits(policy, hash_alg) {
                Err(e) => fails(r, e) && after == before,
                Ok(_) => {
                    &&& answers_nothing(r)
                    &&& after == (TpmState { pcr_policy: after.pcr_policy, ..before })
                    &&& after.pcr_policy.hash_alg == hash_alg
                    &&& after.pcr_policy.digest@ == policy
                },
            }
        },
    }
}

/// TPM2_PCR_SetAuthPolicy.
pub fn pcr_set_auth_policy(state: &mut TpmState, request: &Request) -> (r: TpmResult<Response>)
    requires
        old(state).wf(),
    ensures
        final(state).wf(),
        pcr_set_auth_policy_ran(*final(state), *old(state), request@, r),
{
    let mut reader = request.reader();
    let policy: Vec<u8> = take_sized::<64>(&mut reader)?;
    let hash_alg: u16 = reader.u16()?;
    let handle: u32 = reader.u32()?;
    reader.expect_end()?;
    if let Err(e) = pcr_index(handle) {
        return Err(e.with_parameter(3));
    }
    let value: TpmtHa = fitting_policy(policy, hash_alg)?;
    state.pcr_policy = value;
    nothing()
}

/// TPM2_PCR_SetAuthValue.
pub open spec fn pcr_set_auth_value_ran(
    after: TpmState,
    before: TpmState,
    req: RequestView,
    r: TpmResult<Response>,
) -> bool {
    match alone(req.parameters, parse_sized(req.parameters, 0, 64)) {
        Err(e) => fails(r, e) && after == before,
        Ok(auth) => match req.handle(0) {
            Err(e) => fails(r, e) && after == before,
            Ok(h) => if h > hc::PCR_LAST {
                fails(r, TpmRc(rc::VALUE).for_handle(1)) && after == before
            } else {
                &&& answers_nothing(r)
                &&& after == (TpmState { pcr_auth: after.pcr_auth, ..before })
                &&& after.pcr_auth@ == auth
            },
        },
    }
}

/// TPM2_PCR_SetAuthValue.
pub fn pcr_set_auth_value(state: &mut TpmState, request: &Request) -> (r: TpmResult<Response>)
    requires
        old(state).wf(),
    ensures
        final(state).wf(),
        pcr_set_auth_value_ran(*final(state), *old(state), request@, r),
{
    let mut reader = request.reader();
    let auth: Vec<u8> = take_sized::<64>(&mut reader)?;
    reader.expect_end()?;
    let handle: u32 = request.handle(0)?;
    if let Err(e) = pcr_index(handle) {
        return Err(e.with_handle(1));
    }
    state.pcr_auth = auth;
    nothing()
}

/// TPM2_PCR_Reset.
pub open spec fn pcr_reset_ran(
    after: TpmState,
    before: TpmState,
    req: RequestView,
    r: TpmResult<Response>,
) -> bool {
    match req.handle(0) {
        Err(e) => fails(r, e) && after == before,
        Ok(h) => if h > hc::PCR_LAST {
            fails(r, TpmRc(rc::VALUE).for_handle(1)) && after == before
        } else if !spec_admits(spec_reset_localities(h as int), req.locality) {
            fails(r, TpmRc(rc::LOCALITY)) && after == before
        } else {
            &&& answers_nothing(r)
            &&& after == (TpmState { pcr: after.pcr, ..before })
            &&& after.pcr.counter == before.pcr.counter
            &&& after.pcr.held() == before.pcr.held().map_values(
                |b: BankView|
                    BankView {
                        alg: b.alg,
                        values: b.values.update(h as int, Seq::new(size_of(b.alg), |i: int| 0u8)),
                    },
            )
        },
    }
}

/// TPM2_PCR_Reset.
pub fn pcr_reset(state: &mut TpmState, request: &Request) -> (r: TpmResult<Response>)
    requires
        old(state).wf(),
    ensures
        final(state).wf(),
        pcr_reset_ran(*final(state), *old(state), request@, r),
{
    let handle: u32 = request.handle(0)?;
    let index: u16 = match pcr_index(handle) {
        Ok(i) => i,
        Err(e) => {
            return Err(e.with_handle(1));
        },
    };
    state.pcr.reset(index, request.locality)?;
    nothing()
}

} // verus!
