//! What objects are called, how they are kept outside and who may keep them inside.

use vstd::prelude::*;

use super::pcr::{law_a_digest_is_over_the_registers, registers_named, strung};
use crate::tpm::commands::context::{
    context_save_ran, evict_control_ran, load_check, opened, sealed,
};
use crate::tpm::commands::creation::{
    created, creation_view, keyed_hash_created, sym_created, ParentNames,
};
use crate::tpm::commands::dispatch::{name_of, RequestView, Response};
use crate::tpm::commands::object::{
    create_primary_outcome, create_ran, creation_area, load_external_outcome, load_outcome,
    object_change_auth_ran, only_loads, parse_create, parse_load, parse_load_external,
    read_public_ran, unseal_ran, CreateView,
};
use crate::tpm::commands::signatures::object_named;
use crate::tpm::commands::wire::alone;
use crate::tpm::crypto::hash::{hash_of, size_of, supported};
use crate::tpm::crypto::hmac::{hmac_of, kdfa};
use crate::tpm::crypto::rand::{Rng, RngModel};
use crate::tpm::crypto::sym::{crypted, Direction};
use crate::tpm::engine::object::{Object, ObjectView};
use crate::tpm::engine::protect::{protected, recovered};
use crate::tpm::engine::state::TpmState;
use crate::tpm::error::{TpmRc, TpmResult};
use crate::tpm::marshal::sized;
use crate::tpm::structures::keys::{IdView, PublicView, SensitiveView};
use crate::tpm::structures::lists::{PcrSelection, TpmlPcrSelection};
use crate::util::bytes::{be16, be32, octets16, octets32, octets64};

verus! {

/// A Name: the number of a hash and the hash of what is named.
pub open spec fn name_over(h: u16, data: Seq<u8>) -> Seq<u8> {
    octets16(h) + hash_of(h, data)
}

/// A public area is its type, its hash, its attributes, its policy, its parameters and
/// its identifier.
pub proof fn law_a_public_area_is_laid_out(p: PublicView)
    ensures
        p.octets() == octets16(p.object_type) + octets16(p.name_alg) + octets32(
            p.object_attributes.0,
        ) + sized(p.auth_policy) + p.parameters.octets() + p.unique.octets(),
        p.unique matches IdView::Rsa(n) ==> p.unique.octets() == sized(n),
        p.unique matches IdView::Ecc(x, y) ==> p.unique.octets() == sized(x) + sized(y),
        p.unique matches IdView::KeyedHash(d) ==> p.unique.octets() == sized(d),
        p.unique matches IdView::Sym(d) ==> p.unique.octets() == sized(d),
{
}

/// A sensitive area is its type, its value, its seed and its secret.
pub proof fn law_a_sensitive_area_is_laid_out(s: SensitiveView)
    ensures
        s.octets() == octets16(s.sensitive_type) + sized(s.auth_value) + sized(s.seed_value)
            + sized(s.sensitive),
{
}

/// The Name of a permanent handle, a register or a session is the handle; that of an
/// object or an Index is over its public area.
pub proof fn law_names(state: TpmState, h: u32)
    ensures
        h < 0x18 || 0x0200_0000 <= h < 0x0400_0000 || 0x4000_0000 <= h < 0x4000_0110 ==> name_of(
            state,
            h,
        ) == Ok::<Seq<u8>, TpmRc>(octets32(h)),
        0x0100_0000 <= h < 0x0200_0000 && state.nv.indices@.contains_key(h) && supported(
            state.nv.indices@[h].public.name_alg,
        ) ==> name_of(state, h) == Ok::<Seq<u8>, TpmRc>(
            name_over(
                state.nv.indices@[h].public.name_alg,
                state.nv.indices@[h].public@.octets(),
            ),
        ),
        0x8000_0000 <= h < 0x8100_0000 && state.objects.has_object(h) ==> name_of(state, h) == Ok::<
            Seq<u8>,
            TpmRc,
        >(state.objects.object_at(h).name@),
        0x8100_0000 <= h < 0x8200_0000 && state.persistent@.contains_key(h) ==> name_of(state, h)
            == Ok::<Seq<u8>, TpmRc>(state.persistent@[h].name@),
{
    reveal(name_of);
}

/// What keeps data outside the TPM: the HMAC of what is hidden and the Name, and what
/// is hidden. The keys come from a seed: that of the HMAC under INTEGRITY, that of the
/// cipher under STORAGE and the Name.
pub proof fn law_data_outside_is_hidden_and_authenticated(
    h: u16,
    seed: Seq<u8>,
    bits: u16,
    name: Seq<u8>,
    body: Seq<u8>,
)
    ensures
        ({
            let integrity = seq![0x49u8, 0x4E, 0x54, 0x45, 0x47, 0x52, 0x49, 0x54, 0x59];
            let storage = seq![0x53u8, 0x54, 0x4F, 0x52, 0x41, 0x47, 0x45];
            let none = Seq::<u8>::empty();
            let hidden = crypted(
                0x0043,
                kdfa(h, seed, storage, name, none, bits as u32),
                Seq::new(16, |i: int| 0u8),
                body,
                Direction::Encrypt,
            ).0;
            protected(h, seed, bits, name, body) == sized(
                hmac_of(
                    h,
                    kdfa(h, seed, integrity, none, none, (size_of(h) * 8) as u32),
                    hidden + name,
                ),
            ) + hidden
        }),
{
    reveal(protected);
    assert(crate::tpm::engine::protect::LABEL_INTEGRITY@ =~= seq![
        0x49u8,
        0x4E,
        0x54,
        0x45,
        0x47,
        0x52,
        0x49,
        0x54,
        0x59,
    ]);
    assert(crate::tpm::engine::protect::LABEL_STORAGE@ =~= seq![
        0x53u8,
        0x54,
        0x4F,
        0x52,
        0x41,
        0x47,
        0x45,
    ]);
    assert(crate::tpm::engine::protect::zero_iv() =~= Seq::new(16, |i: int| 0u8));
}

/// What creation data says: the registers selected and their digest, the locality as a
/// bit, the parent and what the caller added.
pub open spec fn creation_data(
    state: TpmState,
    parent: ParentNames,
    h: u16,
    i: CreateView,
    locality: u8,
) -> Seq<u8> {
    let kept = i.selections.map_values(|s: PcrSelection| state.pcr.filtered(s));
    let none = forall|k: int| 0 <= k < kept.len() ==> (#[trigger] kept[k]).select.0 == 0;
    TpmlPcrSelection::octets_of(kept) + sized(
        if none {
            Seq::empty()
        } else {
            hash_of(h, strung(registers_named(state.pcr, i.selections)))
        },
    ) + seq![
        if locality == 0 {
            1u8
        } else if locality == 1 {
            2u8
        } else if locality == 2 {
            4u8
        } else if locality == 3 {
            8u8
        } else if locality == 4 {
            16u8
        } else {
            locality
        },
    ] + octets16(parent.name_alg) + sized(parent.name) + sized(parent.qualified_name) + sized(
        i.outside,
    )
}

/// The creation data, its hash and the ticket: an HMAC under the proof of the hierarchy
/// over TPM_ST_CREATION, the Name and the hash of the creation data.
pub proof fn law_creation_is_attested(
    state: TpmState,
    parent: ParentNames,
    hierarchy: u32,
    i: CreateView,
    locality: u8,
    name: Seq<u8>,
)
    requires
        creation_area(state, parent, hierarchy, i, locality, name) is Ok,
    ensures
        ({
            let h = if i.template.name_alg == 0x0010 {
                0x000Bu16
            } else {
                i.template.name_alg
            };
            let c = creation_data(state, parent, h, i, locality);
            creation_area(state, parent, hierarchy, i, locality, name)->Ok_0 == sized(c) + sized(
                hash_of(h, c),
            ) + (octets16(0x8021) + octets32(hierarchy) + sized(
                if hierarchy == 0x4000_0007 {
                    Seq::empty()
                } else {
                    hmac_of(
                        0x000B,
                        state.hierarchies.spec_get(hierarchy).proof_value@,
                        octets16(0x8021) + name + hash_of(h, c),
                    )
                },
            ))
        }),
{
    let h = if i.template.name_alg == 0x0010 {
        0x000Bu16
    } else {
        i.template.name_alg
    };
    law_a_digest_is_over_the_registers(state.pcr, h, i.selections);
    assert(creation_view(state, parent, h, i.outside, i.selections, locality).octets()
        == creation_data(state, parent, h, i, locality));
}

/// The object that a command loaded.
pub open spec fn made_by(after: TpmState, r: TpmResult<Response>) -> ObjectView {
    after.objects.object_at(r->Ok_0.handle->0)@
}

/// A loaded object has the public area that was sent, the Name of it, the Qualified Name
/// under its parent and the hierarchy of its parent. The answer is the Name. What was
/// sent of it in private is authenticated under the seed of the parent.
pub proof fn law_a_loaded_object_is_named(
    after: TpmState,
    before: TpmState,
    req: RequestView,
    r: TpmResult<Response>,
    private: Seq<u8>,
    public: PublicView,
)
    requires
        only_loads(after, before, load_outcome(before, req), r),
        alone(req.parameters, parse_load(req.parameters)) == Ok::<(Seq<u8>, PublicView), TpmRc>(
            (private, public),
        ),
        supported(public.name_alg),
        r is Ok,
    ensures
        object_named(before, req.handles[0]) is Ok,
        ({
            let o = made_by(after, r);
            let parent = object_named(before, req.handles[0])->Ok_0;
            let name = name_over(public.name_alg, public.octets());
            let hidden = private.skip(2 + be16(private, 0) as int);
            &&& o.public == public
            &&& o.name == name
            &&& o.qualified_name == name_over(public.name_alg, parent.qualified_name@ + name)
            &&& o.hierarchy == parent.hierarchy
            &&& !o.tpm_generated
            &&& r->Ok_0.parameters@ == sized(name)
            &&& parent.public.object_attributes.0 & 0x0003_0000 == 0x0003_0000
            &&& private.subrange(2, 2 + be16(private, 0)) == hmac_of(
                parent.public.name_alg,
                kdfa(
                    parent.public.name_alg,
                    parent.seed_of(),
                    seq![0x49u8, 0x4E, 0x54, 0x45, 0x47, 0x52, 0x49, 0x54, 0x59],
                    Seq::empty(),
                    Seq::empty(),
                    (size_of(parent.public.name_alg) * 8) as u32,
                ),
                hidden + name,
            )
        }),
{
    reveal(recovered);
    let parent = object_named(before, req.handles[0])->Ok_0;
    assert(crate::tpm::engine::protect::LABEL_INTEGRITY@ =~= seq![
        0x49u8,
        0x4E,
        0x54,
        0x45,
        0x47,
        0x52,
        0x49,
        0x54,
        0x59,
    ]);
    lemma_parent_bits(parent.public.object_attributes.0);
}

proof fn lemma_parent_bits(a: u32)
    by (bit_vector)
    ensures
        a & 0x10000 == 0x10000 && a & 0x20000 == 0x20000 <==> a & 0x30000 == 0x30000,
{
}

/// An object loaded from outside is in the hierarchy that was asked for, under it
/// alone, and comes with a private part only in the null hierarchy and only where
/// nothing says that it stays inside.
pub proof fn law_an_external_object_is_kept_apart(
    after: TpmState,
    before: TpmState,
    req: RequestView,
    r: TpmResult<Response>,
    private: Option<SensitiveView>,
    public: PublicView,
    hierarchy: u32,
)
    requires
        only_loads(after, before, load_external_outcome(before, req), r),
        alone(req.parameters, parse_load_external(req.parameters)) == Ok::<
            (Option<SensitiveView>, PublicView, u32),
            TpmRc,
        >((private, public, hierarchy)),
        supported(public.name_alg),
        r is Ok,
    ensures
        ({
            let o = made_by(after, r);
            let name = name_over(public.name_alg, public.octets());
            &&& o.public == public
            &&& o.sensitive == private
            &&& o.name == name
            &&& o.qualified_name == name_over(public.name_alg, octets32(hierarchy) + name)
            &&& o.hierarchy == hierarchy
            &&& !o.tpm_generated
            &&& private is Some ==> hierarchy == 0x4000_0007 && public.object_attributes.0 & 2 != 2
                && public.object_attributes.0 & 0x10 != 0x10 && public.object_attributes.0
                & 0x10000 != 0x10000
            &&& r->Ok_0.parameters@ == sized(name)
        }),
{
}

/// A primary object is in the hierarchy whose seed it was made from, and nothing but
/// the loaded objects changes.
pub proof fn law_a_primary_object_is_of_its_hierarchy(
    after: TpmState,
    before: TpmState,
    req: RequestView,
    r: TpmResult<Response>,
    i: CreateView,
)
    requires
        only_loads(after, before, create_primary_outcome(before, req), r),
        alone(req.parameters, parse_create(req.parameters)) == Ok::<CreateView, TpmRc>(i),
        supported(i.template.name_alg),
        r is Ok,
    ensures
        req.handles.len() > 0,
        ({
            let h = req.handles[0];
            let o = made_by(after, r);
            let name = name_over(i.template.name_alg, o.public.octets());
            &&& h == 0x4000_0001 || h == 0x4000_0007 || h == 0x4000_000B || h == 0x4000_000C
            &&& o.hierarchy == h
            &&& o.public == (PublicView { unique: o.public.unique, ..i.template })
            &&& o.name == name
            &&& o.qualified_name == name_over(i.template.name_alg, octets32(h) + name)
            &&& o.sensitive is Some && o.sensitive->0.auth_value == i.auth
            &&& o.tpm_generated
            &&& after == (TpmState { objects: after.objects, ..before })
        }),
{
    reveal(created);
}

/// The identifier of a symmetric object is the hash of its seed and its secret, and a
/// secret that was sent is kept as it is.
pub proof fn law_a_symmetric_identifier_hides_the_secret(
    m: RngModel,
    t: PublicView,
    seed: Seq<u8>,
    data: Seq<u8>,
)
    requires
        supported(t.name_alg),
    ensures
        keyed_hash_created(m, t, seed, data).0 matches Ok((secret, id)) ==> id == IdView::KeyedHash(
            hash_of(t.name_alg, seed + secret),
        ) && (t.object_attributes.0 & 0x20 != 0x20 ==> secret == data && data.len() > 0),
        sym_created(m, t, seed, data).0 matches Ok((secret, id)) ==> id == IdView::Sym(
            hash_of(t.name_alg, seed + secret),
        ) && (t.object_attributes.0 & 0x20 != 0x20 ==> secret == data),
{
}

/// Unseal answers with the data that was sealed, of an object that is data alone: it
/// neither signs nor decrypts.
pub proof fn law_unseal_answers_with_the_data(
    state: TpmState,
    req: RequestView,
    r: TpmResult<Response>,
)
    requires
        unseal_ran(state, req, r),
        r is Ok,
    ensures
        req.handles.len() > 0,
        object_named(state, req.handles[0]) is Ok,
        ({
            let o = object_named(state, req.handles[0])->Ok_0;
            &&& o.public.object_type == 0x0008
            &&& o.public.object_attributes.0 & 0x40000 != 0x40000
            &&& o.public.object_attributes.0 & 0x20000 != 0x20000
            &&& o.sensitive is Some
            &&& r->Ok_0.parameters@ == sized(o.sensitive->0.sensitive@)
        }),
{
}

/// ReadPublic answers with the public area, the Name and the Qualified Name.
pub proof fn law_read_public_answers_with_the_names(
    state: TpmState,
    req: RequestView,
    r: TpmResult<Response>,
)
    requires
        read_public_ran(state, req, r),
        req.handles.len() > 0,
        object_named(state, req.handles[0]) is Ok,
    ensures
        r is Ok,
        ({
            let o = object_named(state, req.handles[0])->Ok_0;
            r->Ok_0.parameters@ == sized(o.public@.octets()) + sized(o.name@) + sized(
                o.qualified_name@,
            )
        }),
{
}

/// ObjectChangeAuth answers with a private area that has the new value and is otherwise
/// that of the object, under its own parent.
pub proof fn law_a_changed_value_makes_a_new_private_area(
    state: TpmState,
    req: RequestView,
    r: TpmResult<Response>,
    auth: Seq<u8>,
)
    requires
        object_change_auth_ran(state, req, r),
        auth.len() <= 64,
        alone(
            req.parameters,
            crate::tpm::commands::wire::in_sized(req.parameters, 0, 64, 1),
        ) == Ok::<Seq<u8>, TpmRc>(auth),
        r is Ok,
    ensures
        req.handles.len() > 1,
        object_named(state, req.handles[0]) is Ok,
        object_named(state, req.handles[1]) is Ok,
        ({
            let o = object_named(state, req.handles[0])->Ok_0;
            let parent = object_named(state, req.handles[1])->Ok_0;
            let s = parent.public.parameters.spec_symmetric()->0;
            &&& o.sensitive is Some
            &&& auth.len() <= size_of(o.public.name_alg)
            &&& o.qualified_name@ == name_over(
                o.public.name_alg,
                parent.qualified_name@ + o.name@,
            )
            &&& r->Ok_0.parameters@ == sized(
                protected(
                    parent.public.name_alg,
                    parent.seed_of(),
                    s.key_bits,
                    o.name@,
                    sized((SensitiveView { auth_value: auth, ..o.sensitive->0@ }).octets()),
                ),
            )
        }),
{
}

/// EvictControl makes a loaded object persistent, or takes a persistent one away. The
/// platform uses the upper half of the handles and its own objects, an owner the lower
/// half and objects of the owner or endorsement hierarchy.
pub proof fn law_persistent_objects_are_of_who_keeps_them(
    after: TpmState,
    before: TpmState,
    req: RequestView,
    r: TpmResult<Response>,
)
    requires
        evict_control_ran(after, before, req, r),
        r is Ok,
    ensures
        req.handles.len() > 1,
        req.parameters.len() == 4,
        ({
            let auth = req.handles[0];
            let object = req.handles[1];
            let at = be32(req.parameters, 0);
            &&& auth == 0x4000_0001 || auth == 0x4000_000C
            &&& 0x8100_0000 <= at < 0x8200_0000
            &&& after == (TpmState { persistent: after.persistent, ..before })
            &&& if 0x8100_0000 <= object < 0x8200_0000 {
                &&& object == at
                &&& before.persistent@.contains_key(at)
                &&& after.persistent@ == before.persistent@.remove(at)
                &&& auth == 0x4000_0001 ==> at < 0x8180_0000
            } else {
                let o = before.objects.object_at(object);
                &&& before.objects.has_object(object)
                &&& !before.persistent@.contains_key(at)
                &&& after.persistent@[at]@ == o@
                &&& after.persistent@.remove(at) =~= before.persistent@
                &&& !o.state_clear
                &&& if auth == 0x4000_000C {
                    at >= 0x8180_0000 && o.hierarchy == 0x4000_000C
                } else {
                    at < 0x8180_0000 && (o.hierarchy == 0x4000_0001 || o.hierarchy == 0x4000_000B)
                }
            }
        }),
{
}

/// What a saved context holds: the HMAC over the count of the resets, for an object
/// that a restart clears also that of the restarts, the sequence number, the handle and
/// what is hidden; and what is hidden. Both keys come from the proof of the hierarchy
/// and the sequence number.
pub open spec fn context_holds(
    state: TpmState,
    hierarchy: u32,
    sequence: u64,
    handle: u32,
    hidden: Seq<u8>,
) -> Seq<u8> {
    let proof_value = state.hierarchies.spec_get(hierarchy).proof_value@;
    let key = kdfa(
        0x000B,
        proof_value,
        seq![0x49u8, 0x4E, 0x54, 0x45, 0x47, 0x52, 0x49, 0x54, 0x59],
        octets64(sequence),
        Seq::empty(),
        256,
    );
    hmac_of(
        0x000B,
        key,
        octets64(state.clock.total_reset_count) + (if handle == 0x8000_0002 {
            octets32(state.clock.clear_count)
        } else {
            Seq::empty()
        }) + octets64(sequence) + octets32(handle) + hidden,
    )
}

/// The key that hides a saved context.
pub open spec fn context_hides(state: TpmState, hierarchy: u32, sequence: u64) -> Seq<u8> {
    kdfa(
        0x000B,
        state.hierarchies.spec_get(hierarchy).proof_value@,
        seq![0x43u8, 0x4F, 0x4E, 0x54, 0x45, 0x58, 0x54],
        octets64(sequence),
        Seq::empty(),
        256,
    )
}

proof fn lemma_context(
    state: TpmState,
    hierarchy: u32,
    sequence: u64,
    handle: u32,
    hidden: Seq<u8>,
)
    ensures
        crate::tpm::commands::context::context_mac(state, hierarchy, sequence, handle, hidden)
            == context_holds(state, hierarchy, sequence, handle, hidden),
        crate::tpm::commands::context::context_key(
            state.hierarchies.spec_get(hierarchy).proof_value@,
            sequence,
        ) == context_hides(state, hierarchy, sequence),
{
    assert(crate::tpm::commands::context::LABEL_INTEGRITY@ =~= seq![
        0x49u8,
        0x4E,
        0x54,
        0x45,
        0x47,
        0x52,
        0x49,
        0x54,
        0x59,
    ]);
    assert(crate::tpm::commands::context::LABEL_CONTEXT@ =~= seq![
        0x43u8,
        0x4F,
        0x4E,
        0x54,
        0x45,
        0x58,
        0x54,
    ]);
    let r = octets64(state.clock.total_reset_count);
    assert(r + Seq::<u8>::empty() =~= r);
}

/// A context is saved under a sequence number of its own, hidden and authenticated. A
/// session that is saved is no longer loaded.
pub proof fn law_a_saved_context_is_authenticated(
    after: TpmState,
    before: TpmState,
    req: RequestView,
    r: TpmResult<Response>,
)
    requires
        context_save_ran(after, before, req, r),
        r is Ok,
    ensures
        req.handles.len() > 0,
        ({
            let n = (before.sessions.counter + 1) as u64;
            let h = req.handles[0];
            &&& after.sessions.counter == before.sessions.counter + 1
            &&& 0x0200_0000 <= h < 0x0400_0000 ==> !after.sessions.loaded@.contains_key(h)
                && after.sessions.saved@.contains_key(h) && after.sessions.saved@[h] == n
            &&& exists|hierarchy: u32, handle: u32, hidden: Seq<u8>|
                r->Ok_0.parameters@ == octets64(n) + octets32(handle) + octets32(hierarchy) + sized(
                    sized(#[trigger] context_holds(before, hierarchy, n, handle, hidden)) + sized(
                        hidden,
                    ),
                )
        }),
{
    reveal(sealed);
    let c = crate::tpm::commands::context::save_outcome(before, req)->Ok_0;
    let (hierarchy, handle, body) = crate::tpm::commands::context::save_check(before, req)->Ok_0;
    let hidden = crate::tpm::commands::context::context_hidden(before, hierarchy, c.sequence, body);
    lemma_context(before, hierarchy, c.sequence, handle, hidden);
}

/// A context is taken back only with the HMAC over what it claims, and not with a
/// sequence number that was never given.
pub proof fn law_a_context_is_checked(state: TpmState, req: RequestView)
    requires
        load_check(state, req) is Ok,
    ensures
        ({
            let (c, body) = load_check(state, req)->Ok_0;
            let n = be16(c.blob, 0) as int;
            let hidden = c.blob.skip(4 + n);
            &&& c.sequence <= state.sessions.counter
            &&& c.blob.subrange(2, 2 + n) == context_holds(
                state,
                c.hierarchy,
                c.sequence,
                c.saved_handle,
                hidden,
            )
            &&& body == crypted(
                0x0043,
                context_hides(state, c.hierarchy, c.sequence),
                Seq::new(16, |i: int| 0u8),
                hidden,
                Direction::Decrypt,
            ).0
        }),
{
    reveal(opened);
    let (c, body) = load_check(state, req)->Ok_0;
    let (integrity, hidden) = crate::tpm::structures::context::context_data(c.blob)->Ok_0;
    assert(hidden =~= c.blob.skip(4 + be16(c.blob, 0) as int));
    lemma_context(state, c.hierarchy, c.sequence, c.saved_handle, hidden);
    assert(crate::tpm::engine::protect::zero_iv() =~= Seq::new(16, |i: int| 0u8));
    assert(integrity == context_holds(state, c.hierarchy, c.sequence, c.saved_handle, hidden));
}

/// What answers for an object created under a parent: its private area, its public area
/// and the creation data with its hash and ticket.
pub open spec fn created_under(
    state: TpmState,
    parent: Object,
    i: CreateView,
    locality: u8,
    id: IdView,
    s: SensitiveView,
) -> Seq<u8> {
    let public = PublicView { unique: id, ..i.template };
    let name = name_over(public.name_alg, public.octets());
    let above = ParentNames {
        name_alg: parent.public.name_alg,
        name: parent.name@,
        qualified_name: parent.qualified_name@,
    };
    sized(
        protected(
            parent.public.name_alg,
            parent.seed_of(),
            parent.public.parameters.spec_symmetric()->0.key_bits,
            name,
            sized(s.octets()),
        ),
    ) + sized(public.octets()) + creation_area(
        state,
        above,
        parent.hierarchy,
        i,
        locality,
        name,
    )->Ok_0
}

/// Create answers with a private area under the parent, the public area of the template
/// with the new identifier, and the creation data with its ticket. The private area
/// holds the value that was sent.
pub proof fn law_a_created_object_is_kept_under_its_parent(
    after: TpmState,
    before: TpmState,
    req: RequestView,
    r: TpmResult<Response>,
    i: CreateView,
)
    requires
        create_ran(after, before, req, r),
        alone(req.parameters, parse_create(req.parameters)) == Ok::<CreateView, TpmRc>(i),
        supported(i.template.name_alg),
        r is Ok,
    ensures
        object_named(before, req.handles[0]) is Ok,
        after == (TpmState { rng: after.rng, ..before }),
        ({
            let parent = object_named(before, req.handles[0])->Ok_0;
            exists|id: IdView, s: SensitiveView|
                s.auth_value == i.auth && s.sensitive_type == i.template.object_type
                    && r->Ok_0.parameters@ == #[trigger] created_under(
                    before,
                    parent,
                    i,
                    req.locality,
                    id,
                    s,
                )
        }),
{
    reveal(created);
    let (v, parent, sym) = crate::tpm::commands::object::create_check(before, req)->Ok_0;
    let made = crate::tpm::commands::object::child_made(
        before.rng.model(),
        parent,
        sym,
        i.template,
        i.auth,
        i.data,
    ).0->Ok_0;
    assert(r->Ok_0.parameters@ == created_under(
        before,
        parent,
        i,
        req.locality,
        made.0.unique,
        made.1,
    ));
}

} // verus!
