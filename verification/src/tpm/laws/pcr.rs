//! What platform registers hold, and who may change them.

use vstd::prelude::*;

use crate::tpm::commands::dispatch::{RequestView, Response};
use crate::tpm::commands::pcr::{
    answered, pcr_allocate_ran, pcr_event_ran, pcr_extend_ran, pcr_read_ran, pcr_reset_ran,
    pcr_set_auth_value_ran, sized_all,
};
use crate::tpm::commands::wire::alone;
use crate::tpm::constants::rh;
use crate::tpm::crypto::hash::{hash_of, size_of};
use crate::tpm::engine::pcr::{bank_selected, extended_by, flattened, BankView, PcrBanks};
use crate::tpm::engine::state::TpmState;
use crate::tpm::error::{TpmRc, TpmResult};
use crate::tpm::marshal::{parse_sized, sized};
use crate::tpm::structures::lists::{PcrSelection, TpmlDigestValues, TpmlPcrSelection};
use crate::util::bytes::{be16, octets32};

verus! {

/// The values of the registers below `n` whose bits are set, lowest first.
pub open spec fn picked(values: Seq<Seq<u8>>, mask: u32, n: nat) -> Seq<Seq<u8>>
    decreases n,
{
    if n == 0 {
        Seq::empty()
    } else {
        picked(values, mask, (n - 1) as nat) + (if (mask >> ((n - 1) as u32)) & 1 == 1 {
            seq![values[n - 1]]
        } else {
            Seq::empty()
        })
    }
}

/// The values of the registers that a list of selections names and that exist, in
/// order.
pub open spec fn registers_named(pcr: PcrBanks, items: Seq<PcrSelection>) -> Seq<Seq<u8>>
    decreases items.len(),
{
    if items.len() == 0 {
        Seq::empty()
    } else {
        registers_named(pcr, items.drop_last()) + (if pcr.has_bank(items.last().hash_alg) {
            picked(pcr.bank_of(items.last().hash_alg).values, items.last().select.0, 24)
        } else {
            Seq::empty()
        })
    }
}

/// Pieces one after the other.
pub open spec fn strung(s: Seq<Seq<u8>>) -> Seq<u8>
    decreases s.len(),
{
    if s.len() == 0 {
        Seq::empty()
    } else {
        strung(s.drop_last()) + s.last()
    }
}

/// Pieces one after the other, each behind its size.
pub open spec fn strung_sized(s: Seq<Seq<u8>>) -> Seq<u8>
    decreases s.len(),
{
    if s.len() == 0 {
        Seq::empty()
    } else {
        strung_sized(s.drop_last()) + sized(s.last())
    }
}

proof fn lemma_picked(b: BankView, mask: u32, n: nat)
    ensures
        bank_selected(b, mask, n) == picked(b.values, mask, n),
    decreases n,
{
    if n > 0 {
        lemma_picked(b, mask, (n - 1) as nat);
        let p = picked(b.values, mask, (n - 1) as nat);
        assert(p.push(b.values[n - 1]) =~= p + seq![b.values[n - 1]]);
        assert(p =~= p + Seq::<Seq<u8>>::empty());
    }
}

proof fn lemma_named(pcr: PcrBanks, items: Seq<PcrSelection>)
    ensures
        pcr.all_selected(items) == registers_named(pcr, items),
    decreases items.len(),
{
    if items.len() > 0 {
        lemma_named(pcr, items.drop_last());
        lemma_picked(pcr.bank_of(items.last().hash_alg), items.last().select.0, 24);
    }
}

proof fn lemma_strung(s: Seq<Seq<u8>>)
    ensures
        flattened(s) == strung(s),
        sized_all(s) == strung_sized(s),
    decreases s.len(),
{
    if s.len() > 0 {
        lemma_strung(s.drop_last());
    }
}

/// Leaving out the registers that do not exist leaves the values as they are.
proof fn lemma_filtered_named(pcr: PcrBanks, items: Seq<PcrSelection>)
    ensures
        registers_named(pcr, items.map_values(|s: PcrSelection| pcr.filtered(s)))
            == registers_named(pcr, items),
    decreases items.len(),
{
    let kept = items.map_values(|s: PcrSelection| pcr.filtered(s));
    if items.len() > 0 {
        lemma_filtered_named(pcr, items.drop_last());
        assert(kept.drop_last() =~= items.drop_last().map_values(
            |s: PcrSelection| pcr.filtered(s),
        ));
        assert(kept.last() == pcr.filtered(items.last()));
    }
}

/// The digest over a selection is the hash of the values of the registers that it
/// names and that exist, one after the other.
pub proof fn law_a_digest_is_over_the_registers(pcr: PcrBanks, h: u16, items: Seq<PcrSelection>)
    ensures
        pcr.digest_over(h, items.map_values(|s: PcrSelection| pcr.filtered(s))) == hash_of(
            h,
            strung(registers_named(pcr, items)),
        ),
        pcr.digest_over(h, items) == hash_of(h, strung(registers_named(pcr, items))),
{
    let kept = items.map_values(|s: PcrSelection| pcr.filtered(s));
    lemma_named(pcr, items);
    lemma_named(pcr, kept);
    lemma_filtered_named(pcr, items);
    lemma_strung(registers_named(pcr, items));
}

/// True when two sets of banks have the same registers.
pub open spec fn same_registers(a: PcrBanks, b: PcrBanks) -> bool {
    forall|h: u16, i: int|
        #![trigger a.bank_of(h).values[i]]
        #![trigger b.bank_of(h).values[i]]
        a.has_bank(h) == b.has_bank(h) && (a.has_bank(h) && 0 <= i < 24 ==> a.bank_of(
            h,
        ).values[i].len() == b.bank_of(h).values[i].len())
}

proof fn lemma_picked_apart(a: Seq<Seq<u8>>, b: Seq<Seq<u8>>, mask: u32, n: nat, i: int)
    requires
        n <= 24,
        forall|k: int| 0 <= k < 24 ==> (#[trigger] a[k]).len() == (#[trigger] b[k]).len(),
    ensures
        picked(a, mask, n).len() == picked(b, mask, n).len(),
        forall|k: int|
            0 <= k < picked(a, mask, n).len() ==> (#[trigger] picked(a, mask, n)[k]).len()
                == picked(b, mask, n)[k].len(),
        picked(a, mask, n) == picked(b, mask, n) && 0 <= i < n && (mask >> (i as u32)) & 1 == 1
            ==> a[i] == b[i],
    decreases n,
{
    if n > 0 {
        let m = (n - 1) as nat;
        lemma_picked_apart(a, b, mask, m, i);
        let x = picked(a, mask, m);
        let y = picked(b, mask, m);
        let p = picked(a, mask, n);
        let q = picked(b, mask, n);
        if (mask >> (m as u32)) & 1 == 1 {
            assert(p =~= x.push(a[m as int]));
            assert(q =~= y.push(b[m as int]));
            if p == q {
                assert(p.drop_last() =~= x);
                assert(q.drop_last() =~= y);
                assert(p.last() == a[m as int]);
                assert(q.last() == b[m as int]);
            }
        } else {
            assert(p =~= x);
            assert(q =~= y);
        }
    }
}

proof fn lemma_strung_apart(a: Seq<Seq<u8>>, b: Seq<Seq<u8>>)
    requires
        a.len() == b.len(),
        forall|k: int| 0 <= k < a.len() ==> (#[trigger] a[k]).len() == b[k].len(),
    ensures
        strung(a).len() == strung(b).len(),
        strung(a) == strung(b) ==> a == b,
    decreases a.len(),
{
    if a.len() > 0 {
        let x = a.drop_last();
        let y = b.drop_last();
        assert forall|k: int| 0 <= k < x.len() implies (#[trigger] x[k]).len() == y[k].len() by {
            assert(x[k] == a[k] && y[k] == b[k]);
        }
        lemma_strung_apart(x, y);
        assert(a[a.len() - 1].len() == b[a.len() - 1].len());
        if strung(a) == strung(b) {
            let n = strung(x).len() as int;
            assert(strung(a).take(n) =~= strung(x));
            assert(strung(b).take(n) =~= strung(y));
            assert(strung(a).skip(n) =~= a.last());
            assert(strung(b).skip(n) =~= b.last());
            assert(a =~= x.push(a.last()));
            assert(b =~= y.push(b.last()));
        }
    } else {
        assert(a =~= b);
    }
}

proof fn lemma_named_apart(a: PcrBanks, b: PcrBanks, items: Seq<PcrSelection>, j: int, i: int)
    requires
        same_registers(a, b),
        0 <= j < items.len(),
        0 <= i < 24,
        (items[j].select.0 >> (i as u32)) & 1 == 1,
        a.has_bank(items[j].hash_alg),
        registers_named(a, items) == registers_named(b, items),
    ensures
        a.bank_of(items[j].hash_alg).values[i] == b.bank_of(items[j].hash_alg).values[i],
    decreases items.len(),
{
    let less = items.drop_last();
    let s = items.last();
    lemma_named_lengths(a, b, less);
    let x = registers_named(a, less);
    let y = registers_named(b, less);
    let n = x.len() as int;
    assert(a.has_bank(s.hash_alg) == b.has_bank(s.hash_alg)) by {
        let t = a.bank_of(s.hash_alg).values[0];
    }
    assert(registers_named(a, items).take(n) =~= x);
    assert(registers_named(b, items).take(n) =~= y);
    if j == items.len() - 1 {
        let p = picked(a.bank_of(s.hash_alg).values, s.select.0, 24);
        let q = picked(b.bank_of(s.hash_alg).values, s.select.0, 24);
        assert(registers_named(a, items).skip(n) =~= p);
        assert(registers_named(b, items).skip(n) =~= q);
        assert forall|k: int| 0 <= k < 24 implies (#[trigger] a.bank_of(
            s.hash_alg,
        ).values[k]).len() == (#[trigger] b.bank_of(s.hash_alg).values[k]).len() by {}
        lemma_picked_apart(
            a.bank_of(s.hash_alg).values,
            b.bank_of(s.hash_alg).values,
            s.select.0,
            24,
            i,
        );
    } else {
        assert(less[j] == items[j]);
        lemma_named_apart(a, b, less, j, i);
    }
}

proof fn lemma_named_lengths(a: PcrBanks, b: PcrBanks, items: Seq<PcrSelection>)
    requires
        same_registers(a, b),
    ensures
        registers_named(a, items).len() == registers_named(b, items).len(),
        forall|k: int|
            0 <= k < registers_named(a, items).len() ==> (#[trigger] registers_named(
                a,
                items,
            )[k]).len() == registers_named(b, items)[k].len(),
    decreases items.len(),
{
    if items.len() > 0 {
        let s = items.last();
        lemma_named_lengths(a, b, items.drop_last());
        assert(a.has_bank(s.hash_alg) == b.has_bank(s.hash_alg)) by {
            let t = a.bank_of(s.hash_alg).values[0];
        }
        if a.has_bank(s.hash_alg) {
            assert forall|k: int| 0 <= k < 24 implies (#[trigger] a.bank_of(
                s.hash_alg,
            ).values[k]).len() == (#[trigger] b.bank_of(s.hash_alg).values[k]).len() by {}
            lemma_picked_apart(
                a.bank_of(s.hash_alg).values,
                b.bank_of(s.hash_alg).values,
                s.select.0,
                24,
                0,
            );
        }
    }
}

/// Where a selected register differs, the digests over the selection are hashes of
/// different octets.
pub proof fn law_registers_that_differ_are_hashed_apart(
    a: PcrBanks,
    b: PcrBanks,
    items: Seq<PcrSelection>,
    j: int,
    i: int,
)
    requires
        same_registers(a, b),
        0 <= j < items.len(),
        0 <= i < 24,
        (items[j].select.0 >> (i as u32)) & 1 == 1,
        a.has_bank(items[j].hash_alg),
        a.bank_of(items[j].hash_alg).values[i] != b.bank_of(items[j].hash_alg).values[i],
    ensures
        strung(registers_named(a, items)) != strung(registers_named(b, items)),
{
    lemma_named_lengths(a, b, items);
    lemma_strung_apart(registers_named(a, items), registers_named(b, items));
    if registers_named(a, items) == registers_named(b, items) {
        lemma_named_apart(a, b, items, j, i);
    }
}

/// TPM2_PCR_Read of no more registers than one response returns answers with the
/// counter, the selection and the value of each register that was selected and
/// exists, in order, each behind its size.
pub proof fn law_a_read_answers_with_the_registers(
    state: TpmState,
    req: RequestView,
    items: Seq<PcrSelection>,
    r: TpmResult<Response>,
)
    requires
        pcr_read_ran(state, req, r),
        alone(req.parameters, TpmlPcrSelection::parse(req.parameters, 0)) == Ok::<
            Seq<PcrSelection>,
            TpmRc,
        >(items),
        registers_named(state.pcr, items).len() <= 8,
    ensures
        r is Ok,
        ({
            let values = registers_named(state.pcr, items);
            exists|list: Seq<PcrSelection>|
                {
                    &&& list.len() == items.len()
                    &&& forall|k: int|
                        0 <= k < items.len() ==> (#[trigger] list[k]).hash_alg == items[k].hash_alg
                            && (state.pcr.has_bank(items[k].hash_alg) ==> list[k].select
                            == items[k].select)
                    &&& r->Ok_0.parameters@ == octets32(state.pcr.counter)
                        + #[trigger] TpmlPcrSelection::octets_of(list) + octets32(
                        values.len() as u32,
                    ) + strung_sized(values)
                }
        }),
{
    let list = items.map_values(|s: PcrSelection| state.pcr.filtered(s));
    lemma_named(state.pcr, items);
    lemma_named(state.pcr, list);
    lemma_filtered_named(state.pcr, items);
    lemma_strung(registers_named(state.pcr, items));
    assert(answered(state.pcr, items) == list);
    assert(r->Ok_0.parameters@ == octets32(state.pcr.counter) + TpmlPcrSelection::octets_of(list)
        + octets32(registers_named(state.pcr, items).len() as u32) + strung_sized(
        registers_named(state.pcr, items),
    ));
}

/// The value of register `i` of bank `k`.
pub open spec fn value_at(state: TpmState, k: int, i: int) -> Seq<u8> {
    state.pcr.banks@[k].values@[i]@
}

/// The banks are the same, and so is every register but `h`.
pub open spec fn other_registers_kept(after: TpmState, before: TpmState, h: int) -> bool {
    &&& after.pcr.banks@.len() == before.pcr.banks@.len()
    &&& forall|k: int|
        0 <= k < before.pcr.banks@.len() ==> (#[trigger] after.pcr.banks@[k]).alg
            == before.pcr.banks@[k].alg
    &&& forall|k: int, i: int|
        0 <= k < before.pcr.banks@.len() && 0 <= i < 24 && i != h ==> #[trigger] value_at(
            after,
            k,
            i,
        ) == value_at(before, k, i)
}

proof fn lemma_extended_by(a: u16, value: Seq<u8>, pairs: Seq<(u16, Seq<u8>)>, j: int)
    ensures
        (forall|k: int| 0 <= k < pairs.len() ==> (#[trigger] pairs[k]).0 != a) ==> extended_by(
            a,
            value,
            pairs,
        ) == value,
        0 <= j < pairs.len() && pairs[j].0 == a && (forall|k: int|
            0 <= k < pairs.len() && k != j ==> (#[trigger] pairs[k]).0 != a) ==> extended_by(
            a,
            value,
            pairs,
        ) == hash_of(a, value + pairs[j].1),
    decreases pairs.len(),
{
    if pairs.len() > 0 {
        let less = pairs.drop_last();
        lemma_extended_by(a, value, less, j);
        assert(forall|k: int| 0 <= k < less.len() ==> #[trigger] less[k] == pairs[k]);
        if forall|k: int| 0 <= k < pairs.len() ==> (#[trigger] pairs[k]).0 != a {
            assert(pairs[pairs.len() - 1].0 != a);
        }
        if 0 <= j < pairs.len() && pairs[j].0 == a && (forall|k: int|
            0 <= k < pairs.len() && k != j ==> (#[trigger] pairs[k]).0 != a) {
            if j < pairs.len() - 1 {
                assert(pairs[pairs.len() - 1].0 != a);
                assert(less[j].0 == a);
                assert(forall|k: int| 0 <= k < less.len() && k != j ==> (#[trigger] less[k]).0 != a);
            } else {
                assert(forall|k: int| 0 <= k < less.len() ==> (#[trigger] less[k]).0 != a);
            }
        }
    }
}

/// TPM2_PCR_Extend puts into the register of each bank the hash of what it held and
/// the digest given for that bank, and leaves a bank that was given none as it was.
/// No other register moves.
pub proof fn law_extending_hashes_the_old_value_and_the_digest(
    after: TpmState,
    before: TpmState,
    req: RequestView,
    pairs: Seq<(u16, Seq<u8>)>,
    r: TpmResult<Response>,
    k: int,
    j: int,
)
    requires
        before.wf(),
        after.wf(),
        pcr_extend_ran(after, before, req, r),
        r is Ok,
        alone(req.parameters, TpmlDigestValues::parse(req.parameters, 0)) == Ok::<
            Seq<(u16, Seq<u8>)>,
            TpmRc,
        >(pairs),
        0 <= k < before.pcr.banks@.len(),
    ensures
        req.handles[0] < 24,
        other_registers_kept(after, before, req.handles[0] as int),
        ({
            let a = before.pcr.banks@[k].alg;
            let h = req.handles[0] as int;
            &&& (forall|n: int| 0 <= n < pairs.len() ==> (#[trigger] pairs[n]).0 != a) ==> value_at(
                after,
                k,
                h,
            ) == value_at(before, k, h)
            &&& 0 <= j < pairs.len() && pairs[j].0 == a && (forall|n: int|
                0 <= n < pairs.len() && n != j ==> (#[trigger] pairs[n]).0 != a) ==> value_at(
                after,
                k,
                h,
            ) == hash_of(a, value_at(before, k, h) + pairs[j].1)
        }),
{
    let h = req.handles[0] as int;
    lemma_moved(after, before);
    lemma_kept_elsewhere(after, before, h, pairs);
    let b = before.pcr.banks@[k];
    lemma_extended_by(b.alg, b.values@[h]@, pairs, j);
    lemma_bank_moved(after, before, h, pairs, k);
}

proof fn lemma_moved(after: TpmState, before: TpmState)
    requires
        before.wf(),
        after.wf(),
    ensures
        forall|k: int|
            0 <= k < before.pcr.banks@.len() ==> (#[trigger] before.pcr.banks@[k]).values@.len()
                == 24,
        forall|k: int|
            0 <= k < after.pcr.banks@.len() ==> (#[trigger] after.pcr.banks@[k]).values@.len()
                == 24,
{
    reveal(PcrBanks::wf);
}

proof fn lemma_bank_moved(
    after: TpmState,
    before: TpmState,
    h: int,
    pairs: Seq<(u16, Seq<u8>)>,
    k: int,
)
    requires
        crate::tpm::commands::pcr::extended(after.pcr, before.pcr, h, pairs),
        0 <= k < before.pcr.banks@.len(),
        0 <= h < 24,
        before.pcr.banks@[k].values@.len() == 24,
        k < after.pcr.banks@.len() ==> after.pcr.banks@[k].values@.len() == 24,
    ensures
        after.pcr.banks@.len() == before.pcr.banks@.len(),
        after.pcr.banks@[k].alg == before.pcr.banks@[k].alg,
        value_at(after, k, h) == extended_by(
            before.pcr.banks@[k].alg,
            value_at(before, k, h),
            pairs,
        ),
        forall|i: int|
            0 <= i < 24 && i != h ==> #[trigger] value_at(after, k, i) == value_at(before, k, i),
{
    let f = |b: BankView| crate::tpm::engine::pcr::bank_extended(b, h, pairs);
    assert(after.pcr.held() == before.pcr.held().map_values(f));
    assert(after.pcr.held().len() == before.pcr.held().len());
    assert(after.pcr.held()[k] == f(before.pcr.held()[k]));
    assert(after.pcr.held()[k] == after.pcr.banks@[k]@);
    assert(before.pcr.held()[k] == before.pcr.banks@[k]@);
    let now = after.pcr.banks@[k]@;
    let was = before.pcr.banks@[k]@;
    assert(was.values[h] == value_at(before, k, h));
    assert(now.values[h] == value_at(after, k, h));
    assert forall|i: int| 0 <= i < 24 && i != h implies #[trigger] value_at(after, k, i)
        == value_at(before, k, i) by {
        assert(now.values[i] == was.values[i]);
    }
}

proof fn lemma_kept_elsewhere(
    after: TpmState,
    before: TpmState,
    h: int,
    pairs: Seq<(u16, Seq<u8>)>,
)
    requires
        crate::tpm::commands::pcr::extended(after.pcr, before.pcr, h, pairs),
        0 <= h < 24,
        forall|k: int|
            0 <= k < before.pcr.banks@.len() ==> (#[trigger] before.pcr.banks@[k]).values@.len()
                == 24,
        forall|k: int|
            0 <= k < after.pcr.banks@.len() ==> (#[trigger] after.pcr.banks@[k]).values@.len()
                == 24,
    ensures
        other_registers_kept(after, before, h),
{
    assert(after.pcr.held().len() == before.pcr.held().len());
    assert forall|k: int| 0 <= k < before.pcr.banks@.len() implies (#[trigger] after.pcr.banks@[k]).alg
        == before.pcr.banks@[k].alg by {
        lemma_bank_moved(after, before, h, pairs, k);
    }
    assert forall|k: int, i: int|
        0 <= k < before.pcr.banks@.len() && 0 <= i < 24 && i != h implies #[trigger] value_at(
        after,
        k,
        i,
    ) == value_at(before, k, i) by {
        lemma_bank_moved(after, before, h, pairs, k);
    }
}

/// TPM2_PCR_Event extends the register of each bank with the hash of the event by
/// that bank's algorithm. With the null handle no register moves.
pub proof fn law_an_event_extends_with_its_hash(
    after: TpmState,
    before: TpmState,
    req: RequestView,
    event: Seq<u8>,
    r: TpmResult<Response>,
    k: int,
)
    requires
        before.wf(),
        after.wf(),
        pcr_event_ran(after, before, req, r),
        r is Ok,
        req.parameters.len() == 2 + event.len(),
        be16(req.parameters, 0) == event.len(),
        req.parameters.skip(2) == event,
        0 <= k < before.pcr.banks@.len(),
    ensures
        req.handles[0] == rh::NULL ==> after == before,
        req.handles[0] != rh::NULL ==> {
            let a = before.pcr.banks@[k].alg;
            let h = req.handles[0] as int;
            &&& h < 24
            &&& other_registers_kept(after, before, h)
            &&& value_at(after, k, h) == hash_of(a, value_at(before, k, h) + hash_of(a, event))
        },
{
    assert(req.parameters.subrange(2, 2int + event.len()) =~= event);
    if req.handles[0] != rh::NULL {
        let h = req.handles[0] as int;
        let pairs = before.pcr.digests_of(event);
        lemma_moved(after, before);
        lemma_kept_elsewhere(after, before, h, pairs);
        lemma_bank_moved(after, before, h, pairs, k);
        let a = before.pcr.banks@[k].alg;
        assert(before.pcr.held()[k].alg == a);
        assert(pairs[k] == (a, hash_of(a, event)));
        assert forall|n: int| 0 <= n < pairs.len() && n != k implies (#[trigger] pairs[n]).0
            != a by {
            reveal(PcrBanks::wf);
            assert(before.pcr.banks@[n].alg != before.pcr.banks@[k].alg);
        }
        lemma_extended_by(a, value_at(before, k, h), pairs, k);
    }
}

proof fn lemma_masks(l: u8)
    by (bit_vector)
    requires
        l < 5,
    ensures
        ((0x0Fu8 >> l) & 1 == 1) <==> l < 4,
        ((0x0Cu8 >> l) & 1 == 1) <==> (l == 2 || l == 3),
        ((0u8 >> l) & 1 == 1) <==> false,
        ((0x1Cu8 >> l) & 1 == 1) <==> (l == 2 || l == 3 || l == 4),
        ((0x0Eu8 >> l) & 1 == 1) <==> (l == 1 || l == 2 || l == 3),
        ((0x04u8 >> l) & 1 == 1) <==> l == 2,
        ((0x1Fu8 >> l) & 1 == 1) <==> l < 5,
{
}

/// The localities from which a register may be extended.
pub open spec fn may_extend(i: int, l: u8) -> bool {
    if i == 17 || i == 18 {
        l == 2 || l == 3 || l == 4
    } else if i == 19 {
        l == 2 || l == 3
    } else if i == 20 {
        l == 1 || l == 2 || l == 3
    } else if i == 21 || i == 22 {
        l == 2
    } else {
        l < 5
    }
}

/// The localities from which a register may be reset.
pub open spec fn may_reset(i: int, l: u8) -> bool {
    if i == 16 || i == 23 {
        l < 4
    } else if i == 21 || i == 22 {
        l == 2 || l == 3
    } else {
        false
    }
}

/// TPM2_PCR_Reset sets the register of every bank to zeros, and moves no other
/// register and no count. It takes the registers and localities that may.
pub proof fn law_a_reset_register_is_zero(
    after: TpmState,
    before: TpmState,
    req: RequestView,
    r: TpmResult<Response>,
    k: int,
)
    requires
        before.wf(),
        after.wf(),
        pcr_reset_ran(after, before, req, r),
        r is Ok,
        0 <= k < before.pcr.banks@.len(),
    ensures
        may_reset(req.handles[0] as int, req.locality),
        after.pcr.counter == before.pcr.counter,
        after.pcr.banks@.len() == before.pcr.banks@.len(),
        after.pcr.banks@[k].alg == before.pcr.banks@[k].alg,
        value_at(after, k, req.handles[0] as int).len() == size_of(before.pcr.banks@[k].alg),
        forall|n: int|
            0 <= n < value_at(after, k, req.handles[0] as int).len() ==> #[trigger] value_at(
                after,
                k,
                req.handles[0] as int,
            )[n] == 0,
        forall|i: int|
            0 <= i < 24 && i != req.handles[0] ==> #[trigger] value_at(after, k, i) == value_at(
                before,
                k,
                i,
            ),
{
    let h = req.handles[0] as int;
    lemma_moved(after, before);
    if req.locality < 5 {
        lemma_masks(req.locality);
    }
    assert(after.pcr.held().len() == before.pcr.held().len());
    let now = after.pcr.held()[k];
    let was = before.pcr.held()[k];
    assert(now == after.pcr.banks@[k]@);
    assert(was == before.pcr.banks@[k]@);
    assert(now.values == was.values.update(h, Seq::new(size_of(was.alg), |i: int| 0u8)));
    assert(now.values[h] == value_at(after, k, h));
    assert forall|i: int| 0 <= i < 24 && i != h implies #[trigger] value_at(after, k, i)
        == value_at(before, k, i) by {
        assert(now.values[i] == was.values[i]);
    }
}

/// A register is extended from the localities that may, and from no other.
pub proof fn law_a_register_is_extended_from_its_localities(
    after: TpmState,
    before: TpmState,
    req: RequestView,
    r: TpmResult<Response>,
)
    requires
        r is Ok,
    ensures
        pcr_extend_ran(after, before, req, r) ==> may_extend(req.handles[0] as int, req.locality),
        pcr_event_ran(after, before, req, r) && req.handles[0] != rh::NULL ==> may_extend(
            req.handles[0] as int,
            req.locality,
        ),
{
    if req.locality < 5 {
        lemma_masks(req.locality);
    }
}

/// PCR_SetAuthValue gives the registers the value that was sent.
pub proof fn law_the_registers_take_the_value_sent(
    after: TpmState,
    before: TpmState,
    req: RequestView,
    r: TpmResult<Response>,
    v: Seq<u8>,
)
    requires
        pcr_set_auth_value_ran(after, before, req, r),
        alone(req.parameters, parse_sized(req.parameters, 0, 64)) == Ok::<Seq<u8>, TpmRc>(v),
        r is Ok,
    ensures
        after.pcr_auth@ == v,
        after == (TpmState { pcr_auth: after.pcr_auth, ..before }),
{
}

/// PCR_Allocate leaves the registers as they are until the next start, and answers with
/// success, the number of registers and the memory that they need.
pub proof fn law_an_allocation_waits_for_a_start(
    after: TpmState,
    before: TpmState,
    req: RequestView,
    r: TpmResult<Response>,
)
    requires
        pcr_allocate_ran(after, before, req, r),
        r is Ok,
    ensures
        after.pcr == before.pcr,
        after.pcr_allocation_pending,
        after.pcr_allocation@.len() > 0,
        r->Ok_0.parameters@.take(9) == seq![1u8] + octets32(24) + octets32(
            (after.pcr_allocation@.len() * 24) as u32,
        ),
        after == (TpmState {
            pcr_allocation: after.pcr_allocation,
            pcr_allocation_pending: true,
            ..before
        }),
{
    let all = r->Ok_0.parameters@;
    assert(all.take(9) =~= seq![1u8] + octets32(24) + octets32(
        (after.pcr_allocation@.len() * 24) as u32,
    ));
}

} // verus!
