//! Creating, loading and reading objects.

use vstd::prelude::*;

use super::creation::{
    create_sensitive, created, creation_data, creation_ticket, creation_ticket_of, creation_view,
    derived, derived_sensitive, effective, effective_alg, label_and_context, label_and_context_of,
    lemma_created_binds, lemma_created_fits, lemma_created_id_fits, lemma_derived_binds,
    primary_context, primary_input, DerivedOctets, ParentNames, LABEL_PRIMARY,
};
use super::dispatch::{Request, RequestView, Response};
use super::execute::{respond, respond_with_handle};
use super::signatures::{object_named, object_of};
use super::wire::{
    alone, answers_handle, answers_with, at_parameter, fails, in_sized, in_u32, numbered,
    read_sized, read_u32,
};
use crate::tpm::constants::{alg, rc, rh};
use crate::tpm::crypto::hash::{digest_size, hash_of, lemma_hash_len, size_of, supported};
use crate::tpm::crypto::hmac::kdfa;
use crate::tpm::crypto::rand::{seeded, Drbg, Rng, RngModel, SeededRng};
use crate::tpm::engine::hierarchy::is_hierarchy;
use crate::tpm::engine::names::{
    handle_name, object_name, object_name_of, qualified_name, qualified_name_of,
};
use crate::tpm::engine::object::{Object, ObjectView, Slot};
use crate::tpm::engine::protect::{
    integrity_of, law_only_an_intact_blob_is_recovered, private_of_parent, protected, protects,
    recovered, unwrap_private, wrap_private,
};
use crate::tpm::engine::saved_object::{restorable, restored_check};
use crate::tpm::engine::state::TpmState;
use crate::tpm::engine::validate::{
    action_check, binding_check, check_binding, creation_check, loaded_check,
    validate_action_attributes, validate_creation_template, validate_loaded_public,
};
use crate::tpm::error::{TpmRc, TpmResult};
use crate::tpm::marshal::{
    lemma_holds_all, lemma_holds_both, lemma_holds_sized, parse_sized, sized, Parsed, Reader,
    Writer,
};
use crate::tpm::structures::attributes::ObjectAttributes;
use crate::tpm::structures::base::{Tpm2bData, Tpm2bDigest};
use crate::tpm::structures::keys::{
    lemma_public_reads, lemma_read_public_fits, lemma_read_sensitive_fits, parse_public,
    parse_sensitive_create, IdView, PublicId, PublicView, SensitiveComposite, SensitiveView,
    Tpm2bPublic, Tpm2bSensitiveCreate, TpmtPublic, TpmtSensitive,
};
use crate::tpm::structures::lists::{PcrSelection, TpmlPcrSelection};
use crate::tpm::structures::schemes::SymDef;
use crate::tpm::structures::signature::Ticket;
use crate::util::bytes::{constant_time_eq, octets32, to_vec};

verus! {

/// The parameters of TPM2_CreatePrimary and TPM2_Create.
pub struct CreateView {
    pub auth: Seq<u8>,
    pub data: Seq<u8>,
    pub template: PublicView,
    pub outside: Seq<u8>,
    pub selections: Seq<PcrSelection>,
}

/// The parameters of TPM2_CreatePrimary and TPM2_Create.
pub open spec fn parse_create(d: Seq<u8>) -> Parsed<CreateView> {
    match numbered(parse_sensitive_create(d, 0), 1) {
        Err(e) => Err(e),
        Ok((s, n1)) => match numbered(parse_public(d, n1), 2) {
            Err(e) => Err(e),
            Ok((template, n2)) => match in_sized(d, n2, 66, 3) {
                Err(e) => Err(e),
                Ok((outside, n3)) => match numbered(TpmlPcrSelection::parse(d, n3), 4) {
                    Err(e) => Err(e),
                    Ok((selections, n4)) => Ok(
                        (
                            CreateView { auth: s.0, data: s.1, template, outside, selections },
                            n4,
                        ),
                    ),
                },
            },
        },
    }
}

/// The parameters of TPM2_CreatePrimary and TPM2_Create.
#[derive(Debug)]
pub struct CreateInput {
    pub sensitive: Tpm2bSensitiveCreate,
    pub template: TpmtPublic,
    pub outside: Tpm2bData,
    pub selections: TpmlPcrSelection,
}

impl View for CreateInput {
    type V = CreateView;

    open spec fn view(&self) -> CreateView {
        CreateView {
            auth: self.sensitive.sensitive.user_auth@,
            data: self.sensitive.sensitive.data@,
            template: self.template@,
            outside: self.outside@,
            selections: self.selections.items@,
        }
    }
}

/// Read the parameters of TPM2_CreatePrimary and TPM2_Create.
fn read_create(request: &Request) -> (out: TpmResult<CreateInput>)
    ensures
        match alone(request@.parameters, parse_create(request@.parameters)) {
            Ok(v) => out is Ok && out->Ok_0@ == v && v.selections.len() <= 16,
            Err(e) => out is Err && out->Err_0 == e,
        },
{
    let mut r: Reader = request.reader();
    let sensitive: Tpm2bSensitiveCreate = at_parameter(Tpm2bSensitiveCreate::unmarshal(&mut r), 1)?;
    let public: Tpm2bPublic = at_parameter(Tpm2bPublic::unmarshal(&mut r), 2)?;
    let outside: Tpm2bData = at_parameter(Tpm2bData::unmarshal(&mut r), 3)?;
    let selections: TpmlPcrSelection = at_parameter(TpmlPcrSelection::unmarshal(&mut r), 4)?;
    r.expect_end()?;
    Ok(CreateInput { sensitive, template: public.public_area, outside, selections })
}

/// An object under a parent. It goes away at a TPM Restart because of itself
/// or of an ancestor.
pub open spec fn object_made(
    public: PublicView,
    sensitive: Option<SensitiveView>,
    hierarchy: u32,
    parent: Seq<u8>,
    tpm_generated: bool,
    inherited: bool,
) -> ObjectView {
    let name = object_name_of(public);
    ObjectView {
        public,
        sensitive,
        name,
        qualified_name: qualified_name_of(public.name_alg, parent, name),
        hierarchy,
        tpm_generated,
        state_clear: public.object_attributes.has(ObjectAttributes::ST_CLEAR) || inherited,
    }
}

/// An object under a parent.
fn make_object(
    public: TpmtPublic,
    sensitive: Option<TpmtSensitive>,
    hierarchy: u32,
    parent: &[u8],
    tpm_generated: bool,
    inherited: bool,
) -> (r: Object)
    ensures
        r@ == object_made(
            public@,
            match sensitive {
                Some(s) => Some(s@),
                None => None,
            },
            hierarchy,
            parent@,
            tpm_generated,
            inherited,
        ),
        r.wf(),
{
    let mut object: Object = Object::new(public, sensitive, hierarchy, parent, tpm_generated);
    if inherited {
        object.state_clear = true;
    }
    object
}

/// The object is loaded under the lowest free handle, which leads the response,
/// or there is no room for it and nothing changes.
pub open spec fn loads(
    after: TpmState,
    before: TpmState,
    out: TpmResult<(ObjectView, Seq<u8>)>,
    r: TpmResult<Response>,
) -> bool {
    match out {
        Err(e) => after.objects == before.objects && fails(r, e),
        Ok((o, parameters)) => if !before.objects.has_room() {
            after.objects == before.objects && fails(r, TpmRc(rc::OBJECT_MEMORY))
        } else {
            let h = r->Ok_0.handle->0;
            &&& answers_handle(r, h, parameters)
            &&& before.objects.is_next(h)
            &&& after.objects.slots@ == before.objects.slots@.insert(h, after.objects.slots@[h])
            &&& after.objects.has_object(h)
            &&& after.objects.object_at(h)@ == o
        },
    }
}

/// The object is loaded and nothing else changes.
pub open spec fn only_loads(
    after: TpmState,
    before: TpmState,
    out: TpmResult<(ObjectView, Seq<u8>)>,
    r: TpmResult<Response>,
) -> bool {
    after == (TpmState { objects: after.objects, ..before }) && loads(after, before, out, r)
}

/// Load an object and answer with its handle.
pub fn load_object(state: &mut TpmState, object: Object, w: Writer) -> (r: TpmResult<Response>)
    requires
        old(state).wf(),
        object.wf(),
        w.good(),
    ensures
        final(state).wf(),
        only_loads(*final(state), *old(state), Ok((object@, w.written())), r),
{
    let handle: u32 = state.objects.insert(Slot::Object(Box::new(object)))?;
    respond_with_handle(handle, w)
}

/// A Primary Object of a hierarchy: its seed and the template make it, so the
/// same ones make it again.
pub open spec fn primary_made(
    state: TpmState,
    hierarchy: u32,
    t: PublicView,
    auth: Seq<u8>,
    data: Seq<u8>,
) -> TpmResult<ObjectView> {
    let m = seeded(
        effective(t.name_alg),
        state.hierarchies.spec_get(hierarchy).seed@ + (LABEL_PRIMARY@ + seq![0u8]
            + primary_input(t, data)),
    );
    match created(m, t, auth, data).0 {
        Err(e) => Err(e),
        Ok((s, id)) => Ok(
            object_made(
                PublicView { unique: id, ..t },
                Some(s),
                hierarchy,
                octets32(hierarchy),
                true,
                false,
            ),
        ),
    }
}

/// Whether a hash is one an object can be made with.
pub open spec fn alg_usable(name_alg: u16) -> bool {
    name_alg == alg::NULL || supported(name_alg)
}

proof fn lemma_parsed_alg(d: Seq<u8>, at: int, derive: bool)
    ensures
        match PublicView::parse(d, at, derive) {
            Ok((v, _)) => alg_usable(v.name_alg),
            Err(_) => true,
        },
{
}

/// Make a Primary Object of a hierarchy.
fn make_primary(
    state: &TpmState,
    hierarchy: u32,
    template: &TpmtPublic,
    supplied: &Tpm2bSensitiveCreate,
) -> (r: TpmResult<Object>)
    requires
        is_hierarchy(hierarchy),
        alg_usable(template.name_alg),
    ensures
        match primary_made(
            *state,
            hierarchy,
            template@,
            supplied.sensitive.user_auth@,
            supplied.sensitive.data@,
        ) {
            Ok(o) => r is Ok && r->Ok_0@ == o && r->Ok_0.wf(),
            Err(e) => r is Err && r->Err_0 == e,
        },
{
    let context: Vec<u8> = primary_context(template, supplied)?;
    let mut rng: SeededRng = SeededRng::new(
        effective_alg(template.name_alg),
        state.hierarchies.get(hierarchy).seed.as_slice(),
        LABEL_PRIMARY.as_slice(),
        context.as_slice(),
    )?;
    let (sensitive, unique) = create_sensitive(&mut rng, template, supplied)?;
    let mut public: TpmtPublic = template.clone();
    public.unique = unique;
    let name: Vec<u8> = handle_name(hierarchy);
    Ok(make_object(public, Some(sensitive), hierarchy, name.as_slice(), true, false))
}

/// What a new object is reported with: its creation data, the digest of it and
/// the ticket.
pub open spec fn creation_area(
    state: TpmState,
    parent: ParentNames,
    hierarchy: u32,
    i: CreateView,
    locality: u8,
    name: Seq<u8>,
) -> TpmResult<Seq<u8>> {
    let h = effective(i.template.name_alg);
    let c = creation_view(state, parent, h, i.outside, i.selections, locality).octets();
    match creation_ticket_of(state, hierarchy, name, hash_of(h, c)) {
        Err(e) => Err(e),
        Ok(t) => Ok(sized(c) + sized(hash_of(h, c)) + t.octets()),
    }
}

/// Write what a new object is reported with.
fn write_creation(
    w: &mut Writer,
    state: &TpmState,
    parent_name: &[u8],
    parent_qualified_name: &[u8],
    parent_name_alg: u16,
    hierarchy: u32,
    input: &CreateInput,
    locality: u8,
    name: &[u8],
) -> (r: TpmResult<()>)
    requires
        state.wf(),
        alg_usable(input.template.name_alg),
        parent_name@.len() <= 68,
        parent_qualified_name@.len() <= 68,
        input.selections.items@.len() <= 16,
    ensures
        match creation_area(
            *state,
            ParentNames {
                name_alg: parent_name_alg,
                name: parent_name@,
                qualified_name: parent_qualified_name@,
            },
            hierarchy,
            input@,
            locality,
            name@,
        ) {
            Ok(v) => r is Ok && final(w).written() == old(w).written() + v && final(w).good()
                == old(w).good(),
            Err(e) => r is Err && r->Err_0 == e,
        },
{
    let (data, digest) = creation_data(
        state,
        parent_name,
        parent_qualified_name,
        parent_name_alg,
        effective_alg(input.template.name_alg),
        &input.outside,
        &input.selections,
        locality,
    )?;
    let ticket: Ticket = creation_ticket(state, hierarchy, name, digest.as_slice())?;
    w.sized16(data.as_slice());
    w.sized16(digest.as_slice());
    ticket.marshal(w);
    assert(w.written() =~= old(w).written() + (sized(data@) + sized(digest@) + ticket@.octets()));
    Ok(())
}

/// What TPM2_CreatePrimary makes and returns.
pub open spec fn create_primary_outcome(state: TpmState, req: RequestView) -> TpmResult<
    (ObjectView, Seq<u8>),
> {
    match (req.handle(0), alone(req.parameters, parse_create(req.parameters))) {
        (Err(e), _) => Err(e),
        (_, Err(e)) => Err(e),
        (Ok(h), Ok(i)) => if !is_hierarchy(h) {
            Err(TpmRc(rc::VALUE).for_handle(1))
        } else if !state.hierarchies.is_enabled(h) {
            Err(TpmRc(rc::HIERARCHY).for_handle(1))
        } else {
            match creation_check(i.template) {
                Err(e) => Err(e.for_parameter(2)),
                Ok(_) => match primary_made(state, h, i.template, i.auth, i.data) {
                    Err(e) => Err(e),
                    Ok(o) => match creation_area(
                        state,
                        ParentNames {
                            name_alg: alg::NULL,
                            name: octets32(h),
                            qualified_name: octets32(h),
                        },
                        h,
                        i,
                        req.locality,
                        o.name,
                    ) {
                        Err(e) => Err(e),
                        Ok(area) => Ok((o, sized(o.public.octets()) + area + sized(o.name))),
                    },
                },
            }
        },
    }
}

/// Everything TPM2_CreatePrimary makes.
fn prepare_primary(state: &TpmState, request: &Request) -> (r: TpmResult<(Object, Writer)>)
    requires
        state.wf(),
    ensures
        match create_primary_outcome(*state, request@) {
            Ok((o, p)) => r is Ok && (r->Ok_0).0@ == o && (r->Ok_0).0.wf() && (r->Ok_0).1.good()
                && (r->Ok_0).1.written() == p,
            Err(e) => r is Err && r->Err_0 == e,
        },
{
    let h: u32 = request.handle(0)?;
    let input: CreateInput = read_create(request)?;
    proof {
        lemma_created_alg(request@.parameters);
    }
    if !is_hierarchy(h) {
        return Err(TpmRc(rc::VALUE).with_handle(1));
    }
    if !state.hierarchies.is_enabled(h) {
        return Err(TpmRc(rc::HIERARCHY).with_handle(1));
    }
    at_parameter(validate_creation_template(&input.template), 2)?;
    let object: Object = make_primary(state, h, &input.template, &input.sensitive)?;
    let parent: Vec<u8> = handle_name(h);
    let mut w: Writer = Writer::new();
    object.public.marshal_sized(&mut w);
    write_creation(
        &mut w,
        state,
        parent.as_slice(),
        parent.as_slice(),
        alg::NULL,
        h,
        &input,
        request.locality,
        object.name.as_slice(),
    )?;
    w.sized16(object.name.as_slice());
    proof {
        let area = creation_area(
            *state,
            ParentNames { name_alg: alg::NULL, name: octets32(h), qualified_name: octets32(h) },
            h,
            input@,
            request.locality,
            object@.name,
        )->Ok_0;
        assert(w.written() =~= sized(object@.public.octets()) + area + sized(object@.name));
    }
    Ok((object, w))
}

/// The hash of a template that was read is one an object can be made with.
proof fn lemma_created_alg(d: Seq<u8>)
    ensures
        match parse_create(d) {
            Ok((v, _)) => alg_usable(v.template.name_alg),
            Err(_) => true,
        },
{
}

/// TPM2_CreatePrimary: make a Primary Object and load it.
pub fn create_primary(state: &mut TpmState, request: &Request) -> (r: TpmResult<Response>)
    requires
        old(state).wf(),
    ensures
        final(state).wf(),
        only_loads(*final(state), *old(state), create_primary_outcome(*old(state), request@), r),
{
    let (object, w) = prepare_primary(state, request)?;
    load_object(state, object, w)
}

/// A key that protects children, and the cipher it does so with.
pub open spec fn parent_named(state: TpmState, handle: u32) -> TpmResult<(Object, SymDef)> {
    match object_named(state, handle) {
        Err(e) => Err(e),
        Ok(o) => if !o.is_storage_key() {
            Err(TpmRc(rc::TYPE))
        } else {
            match o.public.parameters.spec_symmetric() {
                None => Err(TpmRc(rc::TYPE)),
                Some(s) => if s.algorithm == alg::NULL {
                    Err(TpmRc(rc::SYMMETRIC))
                } else {
                    Ok((o, s))
                },
            }
        },
    }
}

/// What protecting a child needs of its parent.
#[derive(Debug)]
pub struct Parent {
    pub state_clear: bool,
    pub name_alg: u16,
    pub seed: Vec<u8>,
    pub symmetric: SymDef,
    pub hierarchy: u32,
    pub name: Vec<u8>,
    pub qualified_name: Vec<u8>,
}

impl Parent {
    /// The parent is this object.
    pub open spec fn is(&self, o: Object, s: SymDef) -> bool {
        &&& self.state_clear == o.state_clear
        &&& self.name_alg == o.public.name_alg
        &&& self.seed@ == o.seed_of()
        &&& self.symmetric == s
        &&& self.hierarchy == o.hierarchy
        &&& self.name@ == o.name@
        &&& self.qualified_name@ == o.qualified_name@
        &&& self.name@.len() <= 68
        &&& self.qualified_name@.len() <= 68
    }
}

/// What protecting a child needs of its parent.
pub fn parent_of(state: &TpmState, handle: u32) -> (r: TpmResult<Parent>)
    requires
        state.wf(),
    ensures
        match parent_named(*state, handle) {
            Ok((o, s)) => r is Ok && r->Ok_0.is(o, s),
            Err(e) => r is Err && r->Err_0 == e,
        },
{
    let object: &Object = object_of(state, handle)?;
    if !object.is_storage_key() {
        return Err(TpmRc(rc::TYPE));
    }
    match object.public.parameters.symmetric() {
        None => Err(TpmRc(rc::TYPE)),
        Some(symmetric) => {
            if symmetric.is_null() {
                return Err(TpmRc(rc::SYMMETRIC));
            }
            Ok(
                Parent {
                    state_clear: object.state_clear,
                    name_alg: object.public.name_alg,
                    seed: object.seed_value(),
                    symmetric,
                    hierarchy: object.hierarchy,
                    name: to_vec(object.name.as_slice()),
                    qualified_name: to_vec(object.qualified_name.as_slice()),
                },
            )
        },
    }
}

/// A sensitive area protected for a parent.
pub open spec fn private_made(o: Object, s: SymDef, name: Seq<u8>, sensitive: SensitiveView)
    -> TpmResult<Seq<u8>> {
    match protects(o.public.name_alg, s) {
        Err(e) => Err(e),
        Ok(_) => Ok(
            protected(
                o.public.name_alg,
                o.seed_of(),
                s.key_bits,
                name,
                sized(sensitive.octets()),
            ),
        ),
    }
}

/// Protect a sensitive area for a parent.
fn make_private(
    parent: &Parent,
    name: &[u8],
    sensitive: &TpmtSensitive,
    Ghost(o): Ghost<Object>,
    Ghost(s): Ghost<SymDef>,
) -> (r: TpmResult<Vec<u8>>)
    requires
        parent.is(o, s),
    ensures
        match private_made(o, s, name@, sensitive@) {
            Ok(v) => r is Ok && r->Ok_0@ == v && v.len() <= 1024,
            Err(e) => r is Err && r->Err_0 == e,
        },
{
    let octets: Vec<u8> = sensitive.to_bytes();
    wrap_private(
        parent.name_alg,
        parent.seed.as_slice(),
        &parent.symmetric,
        name,
        octets.as_slice(),
    )
}

/// A new child of a parent: its areas and what protects it, and what the
/// generator is left with.
pub open spec fn child_made(
    m: RngModel,
    o: Object,
    sym: SymDef,
    t: PublicView,
    auth: Seq<u8>,
    data: Seq<u8>,
) -> (TpmResult<(PublicView, SensitiveView, Seq<u8>)>, RngModel) {
    let out = created(m, t, auth, data);
    (
        match out.0 {
            Err(e) => Err(e),
            Ok((s, id)) => {
                let p = PublicView { unique: id, ..t };
                match private_made(o, sym, object_name_of(p), s) {
                    Err(e) => Err(e),
                    Ok(private) => Ok((p, s, private)),
                }
            },
        },
        out.1,
    )
}

/// Make a child of a parent.
fn make_child(
    rng: &mut Drbg,
    parent: &Parent,
    template: &TpmtPublic,
    supplied: &Tpm2bSensitiveCreate,
    Ghost(o): Ghost<Object>,
    Ghost(sym): Ghost<SymDef>,
) -> (r: TpmResult<(TpmtPublic, TpmtSensitive, Vec<u8>)>)
    requires
        parent.is(o, sym),
    ensures
        ({
            let out = child_made(
                old(rng).model(),
                o,
                sym,
                template@,
                supplied.sensitive.user_auth@,
                supplied.sensitive.data@,
            );
            &&& final(rng).model() == out.1
            &&& match out.0 {
                Ok((p, s, private)) => r is Ok && (r->Ok_0).0@ == p && (r->Ok_0).1@ == s
                    && (r->Ok_0).2@ == private && private.len() <= 1024,
                Err(e) => r is Err && r->Err_0 == e,
            }
        }),
{
    let (sensitive, unique) = create_sensitive(rng, template, supplied)?;
    let mut public: TpmtPublic = template.clone();
    public.unique = unique;
    let name: Vec<u8> = object_name(&public);
    let private: Vec<u8> = make_private(parent, name.as_slice(), &sensitive, Ghost(o), Ghost(sym))?;
    Ok((public, sensitive, private))
}

/// What TPM2_Create needs before it makes anything.
pub open spec fn create_check(state: TpmState, req: RequestView) -> TpmResult<
    (CreateView, Object, SymDef),
> {
    match (req.handle(0), alone(req.parameters, parse_create(req.parameters))) {
        (Err(e), _) => Err(e),
        (_, Err(e)) => Err(e),
        (Ok(h), Ok(i)) => match parent_named(state, h) {
            Err(e) => Err(e.for_handle(1)),
            Ok((o, s)) => match creation_check(i.template) {
                Err(e) => Err(e.for_parameter(2)),
                Ok(_) => Ok((i, o, s)),
            },
        },
    }
}

/// What TPM2_Create returns for a child that was made.
pub open spec fn create_reply(
    state: TpmState,
    i: CreateView,
    o: Object,
    locality: u8,
    p: PublicView,
    private: Seq<u8>,
) -> TpmResult<Seq<u8>> {
    match creation_area(
        state,
        ParentNames {
            name_alg: o.public.name_alg,
            name: o.name@,
            qualified_name: o.qualified_name@,
        },
        o.hierarchy,
        i,
        locality,
        object_name_of(p),
    ) {
        Err(e) => Err(e),
        Ok(area) => Ok(sized(private) + sized(p.octets()) + area),
    }
}

/// TPM2_Create.
pub open spec fn create_ran(
    after: TpmState,
    before: TpmState,
    req: RequestView,
    r: TpmResult<Response>,
) -> bool {
    match create_check(before, req) {
        Err(e) => after == before && fails(r, e),
        Ok((i, o, s)) => {
            let made = child_made(before.rng.model(), o, s, i.template, i.auth, i.data);
            &&& after == (TpmState { rng: after.rng, ..before })
            &&& after.rng.model() == made.1
            &&& match made.0 {
                Err(e) => fails(r, e),
                Ok((p, _, private)) => match create_reply(before, i, o, req.locality, p, private) {
                    Err(e) => fails(r, e),
                    Ok(reply) => answers_with(r, reply),
                },
            }
        },
    }
}

/// The creation data of a child does not depend on the generator.
proof fn lemma_reply_without_rng(
    a: TpmState,
    b: TpmState,
    i: CreateView,
    o: Object,
    locality: u8,
    p: PublicView,
    private: Seq<u8>,
)
    requires
        a == (TpmState { rng: a.rng, ..b }),
    ensures
        create_reply(a, i, o, locality, p, private) == create_reply(b, i, o, locality, p, private),
{
    let parent = ParentNames {
        name_alg: o.public.name_alg,
        name: o.name@,
        qualified_name: o.qualified_name@,
    };
    let h = effective(i.template.name_alg);
    assert(creation_view(a, parent, h, i.outside, i.selections, locality) == creation_view(
        b,
        parent,
        h,
        i.outside,
        i.selections,
        locality,
    ));
}

/// TPM2_Create: make a child of a parent and hand it back protected.
pub fn create(state: &mut TpmState, request: &Request) -> (r: TpmResult<Response>)
    requires
        old(state).wf(),
    ensures
        final(state).wf(),
        create_ran(*final(state), *old(state), request@, r),
{
    let h: u32 = request.handle(0)?;
    let input: CreateInput = read_create(request)?;
    proof {
        lemma_created_alg(request@.parameters);
    }
    let parent: Parent = match parent_of(state, h) {
        Ok(p) => p,
        Err(e) => {
            return Err(e.with_handle(1));
        },
    };
    at_parameter(validate_creation_template(&input.template), 2)?;
    let ghost o = parent_named(*state, h)->Ok_0.0;
    let ghost s = parent_named(*state, h)->Ok_0.1;
    let (public, _, private) = make_child(
        &mut state.rng,
        &parent,
        &input.template,
        &input.sensitive,
        Ghost(o),
        Ghost(s),
    )?;
    proof {
        lemma_reply_without_rng(
            *state,
            *old(state),
            input@,
            o,
            request.locality,
            public@,
            private@,
        );
    }
    let name: Vec<u8> = object_name(&public);
    let mut w: Writer = Writer::new();
    w.sized16(private.as_slice());
    public.marshal_sized(&mut w);
    write_creation(
        &mut w,
        state,
        parent.name.as_slice(),
        parent.qualified_name.as_slice(),
        parent.name_alg,
        parent.hierarchy,
        &input,
        request.locality,
        name.as_slice(),
    )?;
    proof {
        let reply = create_reply(*state, input@, o, request.locality, public@, private@)->Ok_0;
        assert(w.written() =~= reply);
    }
    respond(w)
}

/// What deriving a child needs of a Derivation Parent.
#[derive(Debug)]
pub struct DerivationParent {
    pub state_clear: bool,
    /// The hash of the derivation.
    pub hash_alg: u16,
    /// The secret children are derived from.
    pub sensitive: Vec<u8>,
    pub hierarchy: u32,
    pub qualified_name: Vec<u8>,
}

/// The secret a Derivation Parent derives from. It takes a hash and keyed hash
/// data.
pub open spec fn derives(o: Object) -> TpmResult<Seq<u8>> {
    if o.public.name_alg == alg::NULL {
        Err(TpmRc(rc::TYPE).for_handle(1))
    } else {
        match o.sensitive {
            Some(s) => match s.sensitive {
                SensitiveComposite::Bits(b) => Ok(b@),
                _ => Err(TpmRc(rc::TYPE).for_handle(1)),
            },
            None => Err(TpmRc(rc::TYPE).for_handle(1)),
        }
    }
}

/// What a loaded object offers as a Derivation Parent.
pub fn derivation_parent_of(object: &Object) -> (r: TpmResult<DerivationParent>)
    ensures
        match derives(*object) {
            Ok(v) => {
                &&& r is Ok
                &&& r->Ok_0.state_clear == object.state_clear
                &&& r->Ok_0.hash_alg == object.public.name_alg
                &&& r->Ok_0.sensitive@ == v
                &&& r->Ok_0.hierarchy == object.hierarchy
                &&& r->Ok_0.qualified_name@ == object.qualified_name@
            },
            Err(e) => r is Err && r->Err_0 == e,
        },
{
    if object.public.name_alg == alg::NULL {
        return Err(TpmRc(rc::TYPE).with_handle(1));
    }
    match &object.sensitive {
        Some(s) => match &s.sensitive {
            SensitiveComposite::Bits(b) => Ok(
                DerivationParent {
                    state_clear: object.state_clear,
                    hash_alg: object.public.name_alg,
                    sensitive: b.to_vec(),
                    hierarchy: object.hierarchy,
                    qualified_name: to_vec(object.qualified_name.as_slice()),
                },
            ),
            _ => Err(TpmRc(rc::TYPE).with_handle(1)),
        },
        None => Err(TpmRc(rc::TYPE).with_handle(1)),
    }
}

/// The template of a Derived Object. The TPM makes its secret, so it may not
/// say that it does not, and RSA keys are not derived.
pub open spec fn derived_template(blob: Seq<u8>) -> TpmResult<PublicView> {
    match PublicView::parse(blob, 0, true) {
        Err(e) => Err(e.for_parameter(2)),
        Ok((t, end)) => if end != blob.len() {
            Err(TpmRc(rc::SIZE))
        } else {
            match creation_check(t) {
                Err(e) => Err(e.for_parameter(2)),
                Ok(_) => if t.object_attributes.has(ObjectAttributes::SENSITIVE_DATA_ORIGIN) {
                    Err(TpmRc(rc::ATTRIBUTES).for_parameter(2))
                } else if t.object_type == alg::RSA {
                    Err(TpmRc(rc::TYPE).for_parameter(2))
                } else {
                    Ok(t)
                },
            }
        },
    }
}

/// What TPM2_CreateLoaded returns.
pub open spec fn loaded_reply(o: ObjectView, private: Seq<u8>) -> Seq<u8> {
    sized(private) + sized(o.public.octets()) + sized(o.name)
}

/// A Derived Object and what is returned for it. It is never handed out
/// protected: it can be derived again.
pub open spec fn derive_outcome(o: Object, auth: Seq<u8>, data: Seq<u8>, blob: Seq<u8>)
    -> TpmResult<(ObjectView, Seq<u8>)> {
    match (derives(o), derived_template(blob)) {
        (Err(e), _) => Err(e),
        (_, Err(e)) => Err(e),
        (Ok(secret), Ok(t)) => match label_and_context_of(t.unique, data) {
            Err(e) => Err(e.for_parameter(1)),
            Ok((label, context)) => if !supported(o.public.name_alg) {
                Err(TpmRc(rc::HASH))
            } else {
                let octets = kdfa(
                    o.public.name_alg,
                    secret,
                    label,
                    context,
                    Seq::empty(),
                    8192,
                );
                match derived(RngModel::Fixed { octets, used: 0 }, t, auth).0 {
                    Err(e) => Err(e),
                    Ok((s, id)) => {
                        let made = object_made(
                            PublicView { unique: id, ..t },
                            Some(s),
                            o.hierarchy,
                            o.qualified_name@,
                            true,
                            o.state_clear,
                        );
                        Ok((made, loaded_reply(made, Seq::empty())))
                    },
                }
            },
        },
    }
}

/// Read the template of a Derived Object.
fn read_derived_template(blob: &[u8]) -> (r: TpmResult<TpmtPublic>)
    ensures
        match derived_template(blob@) {
            Ok(t) => r is Ok && r->Ok_0@ == t,
            Err(e) => r is Err && r->Err_0 == e,
        },
{
    let mut reader: Reader = Reader::new(blob);
    let template: TpmtPublic = at_parameter(TpmtPublic::unmarshal(&mut reader, true), 2)?;
    reader.expect_end()?;
    at_parameter(validate_creation_template(&template), 2)?;
    if template.object_attributes.has(ObjectAttributes::SENSITIVE_DATA_ORIGIN) {
        return Err(TpmRc(rc::ATTRIBUTES).with_parameter(2));
    }
    if template.object_type == alg::RSA {
        return Err(TpmRc(rc::TYPE).with_parameter(2));
    }
    Ok(template)
}

/// Write what TPM2_CreateLoaded returns.
fn write_loaded(object: &Object, private: &[u8]) -> (w: Writer)
    requires
        object.wf(),
        private@.len() <= 1024,
    ensures
        w.good(),
        w.written() == loaded_reply(object@, private@),
{
    let mut w: Writer = Writer::new();
    w.sized16(private);
    object.public.marshal_sized(&mut w);
    w.sized16(object.name.as_slice());
    assert(w.written() =~= loaded_reply(object@, private@));
    w
}

/// Derive a child from a Derivation Parent.
fn derive_object(object: &Object, supplied: &Tpm2bSensitiveCreate, blob: &[u8]) -> (r: TpmResult<
    (Object, Writer),
>)
    ensures
        match derive_outcome(
            *object,
            supplied.sensitive.user_auth@,
            supplied.sensitive.data@,
            blob@,
        ) {
            Ok((o, p)) => r is Ok && (r->Ok_0).0@ == o && (r->Ok_0).0.wf() && (r->Ok_0).1.good()
                && (r->Ok_0).1.written() == p,
            Err(e) => r is Err && r->Err_0 == e,
        },
{
    let parent: DerivationParent = derivation_parent_of(object)?;
    let template: TpmtPublic = read_derived_template(blob)?;
    let (label, context) = at_parameter(label_and_context(&template, supplied), 1)?;
    let mut octets: DerivedOctets = DerivedOctets::new(
        parent.hash_alg,
        parent.sensitive.as_slice(),
        label.as_slice(),
        context.as_slice(),
    )?;
    let (sensitive, unique) = derived_sensitive(&mut octets, &template, supplied)?;
    let mut public: TpmtPublic = template;
    public.unique = unique;
    let made: Object = make_object(
        public,
        Some(sensitive),
        parent.hierarchy,
        parent.qualified_name.as_slice(),
        true,
        parent.state_clear,
    );
    let none: Vec<u8> = Vec::new();
    assert(none@ =~= Seq::<u8>::empty());
    let w: Writer = write_loaded(&made, none.as_slice());
    Ok((made, w))
}

/// The parameters of TPM2_CreateLoaded.
pub open spec fn parse_create_loaded(d: Seq<u8>) -> Parsed<(Seq<u8>, Seq<u8>, Seq<u8>)> {
    match numbered(parse_sensitive_create(d, 0), 1) {
        Err(e) => Err(e),
        Ok((s, n1)) => match in_sized(d, n1, 1024, 2) {
            Err(e) => Err(e),
            Ok((blob, n2)) => Ok(((s.0, s.1, blob), n2)),
        },
    }
}

/// The template of an object that is not derived.
pub open spec fn plain_template(blob: Seq<u8>) -> TpmResult<PublicView> {
    match TpmtPublic::alone(blob, false) {
        Err(e) => Err(e.for_parameter(2)),
        Ok(t) => match creation_check(t) {
            Err(e) => Err(e.for_parameter(2)),
            Ok(_) => Ok(t),
        },
    }
}

/// True when the handle names a Derivation Parent.
pub open spec fn names_derivation_parent(state: TpmState, handle: u32) -> bool {
    match object_named(state, handle) {
        Ok(o) => o.is_derivation_parent(),
        Err(_) => false,
    }
}

/// What TPM2_CreateLoaded makes of a Derivation Parent or a hierarchy.
pub open spec fn create_loaded_outcome(
    state: TpmState,
    h: u32,
    auth: Seq<u8>,
    data: Seq<u8>,
    blob: Seq<u8>,
) -> TpmResult<(ObjectView, Seq<u8>)> {
    if names_derivation_parent(state, h) {
        derive_outcome(object_named(state, h)->Ok_0, auth, data, blob)
    } else {
        match plain_template(blob) {
            Err(e) => Err(e),
            Ok(t) => if !state.hierarchies.is_enabled(h) {
                Err(TpmRc(rc::HIERARCHY).for_handle(1))
            } else {
                match primary_made(state, h, t, auth, data) {
                    Err(e) => Err(e),
                    Ok(o) => Ok((o, loaded_reply(o, Seq::empty()))),
                }
            },
        }
    }
}

/// A loaded child and what is returned for it.
pub open spec fn loaded_child(
    m: RngModel,
    o: Object,
    sym: SymDef,
    t: PublicView,
    auth: Seq<u8>,
    data: Seq<u8>,
) -> TpmResult<(ObjectView, Seq<u8>)> {
    match child_made(m, o, sym, t, auth, data).0 {
        Err(e) => Err(e),
        Ok((p, s, private)) => {
            let made = object_made(
                p,
                Some(s),
                o.hierarchy,
                o.qualified_name@,
                true,
                o.state_clear,
            );
            Ok((made, loaded_reply(made, private)))
        },
    }
}

/// TPM2_CreateLoaded.
pub open spec fn create_loaded_ran(
    after: TpmState,
    before: TpmState,
    req: RequestView,
    r: TpmResult<Response>,
) -> bool {
    match (req.handle(0), alone(req.parameters, parse_create_loaded(req.parameters))) {
        (Err(e), _) => after == before && fails(r, e),
        (_, Err(e)) => after == before && fails(r, e),
        (Ok(h), Ok((auth, data, blob))) => if names_derivation_parent(before, h) || is_hierarchy(
            h,
        ) {
            only_loads(
                after,
                before,
                create_loaded_outcome(before, h, auth, data, blob),
                r,
            )
        } else {
            match (plain_template(blob), parent_named(before, h)) {
                (Err(e), _) => after == before && fails(r, e),
                (_, Err(e)) => after == before && fails(r, e.for_handle(1)),
                (Ok(t), Ok((o, s))) => {
                    let m = before.rng.model();
                    &&& after == (TpmState { objects: after.objects, rng: after.rng, ..before })
                    &&& after.rng.model() == child_made(m, o, s, t, auth, data).1
                    &&& loads(after, before, loaded_child(m, o, s, t, auth, data), r)
                },
            }
        },
    }
}

/// Read the template of an object that is not derived.
fn read_plain_template(blob: &[u8]) -> (r: TpmResult<TpmtPublic>)
    ensures
        match plain_template(blob@) {
            Ok(t) => r is Ok && r->Ok_0@ == t && alg_usable(t.name_alg),
            Err(e) => r is Err && r->Err_0 == e,
        },
{
    let template: TpmtPublic = at_parameter(TpmtPublic::from_bytes(blob, false), 2)?;
    at_parameter(validate_creation_template(&template), 2)?;
    proof {
        lemma_parsed_alg(blob@, 0, false);
    }
    Ok(template)
}

/// What TPM2_CreateLoaded makes of a Derivation Parent or a hierarchy.
fn prepare_loaded(state: &TpmState, h: u32, supplied: &Tpm2bSensitiveCreate, blob: &[u8]) -> (r:
    TpmResult<(Object, Writer)>)
    requires
        state.wf(),
        names_derivation_parent(*state, h) || is_hierarchy(h),
    ensures
        match create_loaded_outcome(
            *state,
            h,
            supplied.sensitive.user_auth@,
            supplied.sensitive.data@,
            blob@,
        ) {
            Ok((o, p)) => r is Ok && (r->Ok_0).0@ == o && (r->Ok_0).0.wf() && (r->Ok_0).1.good()
                && (r->Ok_0).1.written() == p,
            Err(e) => r is Err && r->Err_0 == e,
        },
{
    if let Ok(o) = object_of(state, h) {
        if o.is_derivation_parent() {
            return derive_object(o, supplied, blob);
        }
    }
    let template: TpmtPublic = read_plain_template(blob)?;
    if !state.hierarchies.is_enabled(h) {
        return Err(TpmRc(rc::HIERARCHY).with_handle(1));
    }
    let object: Object = make_primary(state, h, &template, supplied)?;
    let none: Vec<u8> = Vec::new();
    assert(none@ =~= Seq::<u8>::empty());
    let w: Writer = write_loaded(&object, none.as_slice());
    Ok((object, w))
}

/// True when the handle names a Derivation Parent.
fn is_derivation_parent(state: &TpmState, h: u32) -> (r: bool)
    requires
        state.wf(),
    ensures
        r == names_derivation_parent(*state, h),
{
    match object_of(state, h) {
        Ok(o) => o.is_derivation_parent(),
        Err(_) => false,
    }
}

/// TPM2_CreateLoaded: derive an object from a Derivation Parent, make a Primary
/// Object of a hierarchy, or make a child of a parent, and load it.
pub fn create_loaded(state: &mut TpmState, request: &Request) -> (r: TpmResult<Response>)
    requires
        old(state).wf(),
    ensures
        final(state).wf(),
        create_loaded_ran(*final(state), *old(state), request@, r),
{
    let h: u32 = request.handle(0)?;
    let mut reader: Reader = request.reader();
    let supplied: Tpm2bSensitiveCreate = at_parameter(
        Tpm2bSensitiveCreate::unmarshal(&mut reader),
        1,
    )?;
    let blob: Vec<u8> = read_sized::<1024>(&mut reader, 2)?;
    reader.expect_end()?;
    if is_derivation_parent(state, h) || is_hierarchy(h) {
        let (object, w) = prepare_loaded(state, h, &supplied, blob.as_slice())?;
        return load_object(state, object, w);
    }
    let template: TpmtPublic = read_plain_template(blob.as_slice())?;
    let parent: Parent = match parent_of(state, h) {
        Ok(p) => p,
        Err(e) => {
            return Err(e.with_handle(1));
        },
    };
    let ghost o = parent_named(*state, h)->Ok_0.0;
    let ghost s = parent_named(*state, h)->Ok_0.1;
    let (public, sensitive, private) = make_child(
        &mut state.rng,
        &parent,
        &template,
        &supplied,
        Ghost(o),
        Ghost(s),
    )?;
    let object: Object = make_object(
        public,
        Some(sensitive),
        parent.hierarchy,
        parent.qualified_name.as_slice(),
        true,
        parent.state_clear,
    );
    let w: Writer = write_loaded(&object, private.as_slice());
    load_object(state, object, w)
}

/// What TPM2_Load loads: the two halves have to belong together.
pub open spec fn load_outcome(state: TpmState, req: RequestView) -> TpmResult<
    (ObjectView, Seq<u8>),
> {
    match (req.handle(0), alone(req.parameters, parse_load(req.parameters))) {
        (Err(e), _) => Err(e),
        (_, Err(e)) => Err(e),
        (Ok(h), Ok((private, public))) => if private.len() == 0 {
            Err(TpmRc(rc::SIZE).for_parameter(1))
        } else {
            match (parent_named(state, h), loaded_check(public), action_check(public)) {
                (Err(e), _, _) => Err(e.for_handle(1)),
                (_, Err(e), _) => Err(e.for_parameter(2)),
                (_, _, Err(e)) => Err(e.for_parameter(2)),
                (Ok((o, s)), _, _) => match sensitive_under(o, s, public, private) {
                    Err(e) => Err(e),
                    Ok(sensitive) => match binding_check(public, sensitive) {
                        Err(e) => Err(e.for_parameter(1)),
                        Ok(_) => {
                            let made = object_made(
                                public,
                                Some(sensitive),
                                o.hierarchy,
                                o.qualified_name@,
                                false,
                                o.state_clear,
                            );
                            Ok((made, sized(made.name)))
                        },
                    },
                },
            }
        },
    }
}

/// The parameters of TPM2_Load.
pub open spec fn parse_load(d: Seq<u8>) -> Parsed<(Seq<u8>, PublicView)> {
    match in_sized(d, 0, 1024, 1) {
        Err(e) => Err(e),
        Ok((private, n1)) => match numbered(parse_public(d, n1), 2) {
            Err(e) => Err(e),
            Ok((public, n2)) => Ok(((private, public), n2)),
        },
    }
}

/// The sensitive area that a parent protected for a public area.
pub open spec fn sensitive_under(o: Object, s: SymDef, public: PublicView, private: Seq<u8>)
    -> TpmResult<SensitiveView> {
    match private_of_parent(o.public.name_alg, o.seed_of(), s, object_name_of(public), private) {
        Err(e) => Err(e),
        Ok(plain) => match TpmtSensitive::alone(plain) {
            Err(_) => Err(TpmRc(rc::SENSITIVE)),
            Ok(v) => Ok(v),
        },
    }
}

/// What TPM2_Load loads.
fn prepare_load(state: &TpmState, request: &Request) -> (r: TpmResult<(Object, Writer)>)
    requires
        state.wf(),
    ensures
        match load_outcome(*state, request@) {
            Ok((o, p)) => r is Ok && (r->Ok_0).0@ == o && (r->Ok_0).0.wf() && (r->Ok_0).1.good()
                && (r->Ok_0).1.written() == p,
            Err(e) => r is Err && r->Err_0 == e,
        },
{
    let h: u32 = request.handle(0)?;
    let mut reader: Reader = request.reader();
    let private: Vec<u8> = read_sized::<1024>(&mut reader, 1)?;
    let in_public: Tpm2bPublic = at_parameter(Tpm2bPublic::unmarshal(&mut reader), 2)?;
    reader.expect_end()?;
    if private.len() == 0 {
        return Err(TpmRc(rc::SIZE).with_parameter(1));
    }
    let parent: Parent = match parent_of(state, h) {
        Ok(p) => p,
        Err(e) => {
            return Err(e.with_handle(1));
        },
    };
    let public: TpmtPublic = in_public.public_area;
    at_parameter(validate_loaded_public(&public), 2)?;
    at_parameter(validate_action_attributes(&public), 2)?;
    let name: Vec<u8> = object_name(&public);
    let plain: Vec<u8> = unwrap_private(
        parent.name_alg,
        parent.seed.as_slice(),
        &parent.symmetric,
        name.as_slice(),
        private.as_slice(),
    )?;
    let sensitive: TpmtSensitive = match TpmtSensitive::from_bytes(plain.as_slice()) {
        Ok(s) => s,
        Err(_) => {
            return Err(TpmRc(rc::SENSITIVE));
        },
    };
    at_parameter(check_binding(&public, &sensitive), 1)?;
    let object: Object = make_object(
        public,
        Some(sensitive),
        parent.hierarchy,
        parent.qualified_name.as_slice(),
        false,
        parent.state_clear,
    );
    let mut w: Writer = Writer::new();
    w.sized16(object.name.as_slice());
    assert(w.written() =~= sized(object@.name));
    Ok((object, w))
}

/// TPM2_Load: load what a parent protected.
pub fn load(state: &mut TpmState, request: &Request) -> (r: TpmResult<Response>)
    requires
        old(state).wf(),
    ensures
        final(state).wf(),
        only_loads(*final(state), *old(state), load_outcome(*old(state), request@), r),
{
    let (object, w) = prepare_load(state, request)?;
    load_object(state, object, w)
}

/// A sensitive area behind its size, which may be missing but not malformed.
pub open spec fn parse_optional_sensitive(d: Seq<u8>, at: int) -> Parsed<Option<SensitiveView>> {
    match parse_sized(d, at, 0xFFFF) {
        Err(e) => Err(e),
        Ok((inner, next)) => if inner.len() == 0 {
            Ok((None, next))
        } else {
            match TpmtSensitive::alone(inner) {
                Err(e) => Err(e),
                Ok(s) => Ok((Some(s), next)),
            }
        },
    }
}

/// Read a sensitive area that may be missing.
fn read_optional_sensitive(r: &mut Reader) -> (out: TpmResult<Option<TpmtSensitive>>)
    ensures
        final(r).data() == old(r).data(),
        0 <= old(r).at() <= final(r).at() <= final(r).data().len(),
        match parse_optional_sensitive(old(r).data(), old(r).at()) {
            Ok((v, next)) => {
                &&& out is Ok
                &&& final(r).at() == next
                &&& match (out->Ok_0, v) {
                    (Some(a), Some(b)) => a@ == b,
                    (None, None) => true,
                    _ => false,
                }
            },
            Err(e) => out is Err && out->Err_0 == e,
        },
{
    let inner: Vec<u8> = super::wire::take_sized::<0xFFFF>(r)?;
    if inner.len() == 0 {
        return Ok(None);
    }
    let s: TpmtSensitive = TpmtSensitive::from_bytes(inner.as_slice())?;
    Ok(Some(s))
}

/// The parameters of TPM2_LoadExternal.
pub open spec fn parse_load_external(d: Seq<u8>) -> Parsed<(Option<SensitiveView>, PublicView, u32)> {
    match numbered(parse_optional_sensitive(d, 0), 1) {
        Err(e) => Err(e),
        Ok((private, n1)) => match numbered(parse_public(d, n1), 2) {
            Err(e) => Err(e),
            Ok((public, n2)) => match in_u32(d, n2, 3) {
                Err(e) => Err(e),
                Ok((hierarchy, n3)) => Ok(((private, public, hierarchy), n3)),
            },
        },
    }
}

/// True when an asymmetric public area carries no key at all.
pub open spec fn lacks_key(public: PublicView) -> bool {
    match public.unique {
        IdView::Rsa(modulus) => modulus.len() == 0,
        IdView::Ecc(x, y) => x.len() == 0 || y.len() == 0,
        _ => false,
    }
}

/// True for an attribute that an object from outside cannot have.
pub open spec fn stays_inside(a: ObjectAttributes) -> bool {
    a.has(ObjectAttributes::FIXED_TPM) || a.has(ObjectAttributes::FIXED_PARENT) || a.has(
        ObjectAttributes::RESTRICTED,
    ) || a.has(ObjectAttributes::FIRMWARE_LIMITED) || a.has(ObjectAttributes::SVN_LIMITED)
}

/// Whether a sensitive area from outside may be loaded: only under the null
/// hierarchy, and only with the public area that belongs to it.
pub open spec fn external_check(s: SensitiveView, public: PublicView, hierarchy: u32) -> TpmResult<
    (),
> {
    if stays_inside(public.object_attributes) {
        Err(TpmRc(rc::ATTRIBUTES).for_parameter(2))
    } else if hierarchy != rh::NULL {
        Err(TpmRc(rc::HIERARCHY).for_parameter(3))
    } else if s.sensitive_type != public.object_type {
        Err(TpmRc(rc::TYPE).for_parameter(1))
    } else {
        match binding_check(public, s) {
            Err(e) => Err(e.for_parameter(1)),
            Ok(_) => Ok(()),
        }
    }
}

/// What TPM2_LoadExternal loads.
pub open spec fn load_external_outcome(state: TpmState, req: RequestView) -> TpmResult<
    (ObjectView, Seq<u8>),
> {
    match alone(req.parameters, parse_load_external(req.parameters)) {
        Err(e) => Err(e),
        Ok((private, public, hierarchy)) => match loaded_check(public) {
            Err(e) => Err(e.for_parameter(2)),
            Ok(_) => if lacks_key(public) {
                Err(TpmRc(rc::KEY).for_parameter(2))
            } else {
                let checked = match private {
                    Some(s) => external_check(s, public, hierarchy),
                    None => Ok(()),
                };
                match checked {
                    Err(e) => Err(e),
                    Ok(_) => if !is_hierarchy(hierarchy) || !state.hierarchies.is_enabled(
                        hierarchy,
                    ) {
                        Err(TpmRc(rc::HIERARCHY).for_parameter(3))
                    } else {
                        let made = object_made(
                            public,
                            private,
                            hierarchy,
                            octets32(hierarchy),
                            false,
                            false,
                        );
                        Ok((made, sized(made.name)))
                    },
                }
            },
        },
    }
}

/// True when an asymmetric public area carries no key at all.
fn has_no_key(public: &TpmtPublic) -> (r: bool)
    ensures
        r == lacks_key(public@),
{
    match &public.unique {
        PublicId::Rsa(modulus) => modulus.is_empty(),
        PublicId::Ecc(point) => point.x.is_empty() || point.y.is_empty(),
        _ => false,
    }
}

/// Check that a sensitive area from outside may be loaded.
fn check_external(s: &TpmtSensitive, public: &TpmtPublic, hierarchy: u32) -> (r: TpmResult<()>)
    ensures
        r == external_check(s@, public@, hierarchy),
{
    let a: ObjectAttributes = public.object_attributes;
    if a.has(ObjectAttributes::FIXED_TPM) || a.has(ObjectAttributes::FIXED_PARENT) || a.has(
        ObjectAttributes::RESTRICTED,
    ) || a.has(ObjectAttributes::FIRMWARE_LIMITED) || a.has(ObjectAttributes::SVN_LIMITED) {
        return Err(TpmRc(rc::ATTRIBUTES).with_parameter(2));
    }
    if hierarchy != rh::NULL {
        return Err(TpmRc(rc::HIERARCHY).with_parameter(3));
    }
    if s.sensitive_type != public.object_type {
        return Err(TpmRc(rc::TYPE).with_parameter(1));
    }
    at_parameter(check_binding(public, s), 1)
}

/// What TPM2_LoadExternal loads.
fn prepare_external(state: &TpmState, request: &Request) -> (r: TpmResult<(Object, Writer)>)
    requires
        state.wf(),
    ensures
        match load_external_outcome(*state, request@) {
            Ok((o, p)) => r is Ok && (r->Ok_0).0@ == o && (r->Ok_0).0.wf() && (r->Ok_0).1.good()
                && (r->Ok_0).1.written() == p,
            Err(e) => r is Err && r->Err_0 == e,
        },
{
    let mut reader: Reader = request.reader();
    let private: Option<TpmtSensitive> = at_parameter(read_optional_sensitive(&mut reader), 1)?;
    let in_public: Tpm2bPublic = at_parameter(Tpm2bPublic::unmarshal(&mut reader), 2)?;
    let hierarchy: u32 = read_u32(&mut reader, 3)?;
    reader.expect_end()?;
    let public: TpmtPublic = in_public.public_area;
    at_parameter(validate_loaded_public(&public), 2)?;
    if has_no_key(&public) {
        return Err(TpmRc(rc::KEY).with_parameter(2));
    }
    match &private {
        Some(s) => {
            check_external(s, &public, hierarchy)?;
        },
        None => {},
    }
    if !is_hierarchy(hierarchy) || !state.hierarchies.is_enabled(hierarchy) {
        return Err(TpmRc(rc::HIERARCHY).with_parameter(3));
    }
    let parent: Vec<u8> = handle_name(hierarchy);
    let object: Object = make_object(public, private, hierarchy, parent.as_slice(), false, false);
    let mut w: Writer = Writer::new();
    w.sized16(object.name.as_slice());
    assert(w.written() =~= sized(object@.name));
    Ok((object, w))
}

/// TPM2_LoadExternal: load an object that no parent protects.
pub fn load_external(state: &mut TpmState, request: &Request) -> (r: TpmResult<Response>)
    requires
        old(state).wf(),
    ensures
        final(state).wf(),
        only_loads(*final(state), *old(state), load_external_outcome(*old(state), request@), r),
{
    let (object, w) = prepare_external(state, request)?;
    load_object(state, object, w)
}

/// TPM2_ReadPublic.
pub open spec fn read_public_ran(state: TpmState, req: RequestView, r: TpmResult<Response>) -> bool {
    match req.handle(0) {
        Err(e) => fails(r, e),
        Ok(h) => match object_named(state, h) {
            Err(e) => fails(r, e.for_handle(1)),
            Ok(o) => answers_with(
                r,
                sized(o.public@.octets()) + sized(o.name@) + sized(o.qualified_name@),
            ),
        },
    }
}

/// TPM2_ReadPublic: the public area and the Names of an object.
pub fn read_public(state: &TpmState, request: &Request) -> (r: TpmResult<Response>)
    requires
        state.wf(),
    ensures
        read_public_ran(*state, request@, r),
{
    let h: u32 = request.handle(0)?;
    let object: &Object = match object_of(state, h) {
        Ok(o) => o,
        Err(e) => {
            return Err(e.with_handle(1));
        },
    };
    let mut w: Writer = Writer::new();
    object.public.marshal_sized(&mut w);
    w.sized16(object.name.as_slice());
    w.sized16(object.qualified_name.as_slice());
    assert(w.written() =~= sized(object.public@.octets()) + sized(object.name@) + sized(
        object.qualified_name@,
    ));
    respond(w)
}

/// The data that TPM2_Unseal returns: only what is no key.
pub open spec fn sealed_data(o: Object) -> TpmResult<Seq<u8>> {
    if o.public.object_type != alg::KEYEDHASH {
        Err(TpmRc(rc::TYPE).for_handle(1))
    } else if o.public.object_attributes.has(ObjectAttributes::SIGN_ENCRYPT)
        || o.public.object_attributes.has(ObjectAttributes::DECRYPT) {
        Err(TpmRc(rc::ATTRIBUTES).for_handle(1))
    } else {
        match o.sensitive {
            None => Err(TpmRc(rc::HANDLE).for_handle(1)),
            Some(s) => if s.sensitive@.len() > 128 {
                Err(TpmRc(rc::SIZE))
            } else {
                Ok(s.sensitive@)
            },
        }
    }
}

/// TPM2_Unseal.
pub open spec fn unseal_ran(state: TpmState, req: RequestView, r: TpmResult<Response>) -> bool {
    match req.handle(0) {
        Err(e) => fails(r, e),
        Ok(h) => match object_named(state, h) {
            Err(e) => fails(r, e.for_handle(1)),
            Ok(o) => match sealed_data(o) {
                Err(e) => fails(r, e),
                Ok(data) => answers_with(r, sized(data)),
            },
        },
    }
}

/// TPM2_Unseal: the data of a data object.
pub fn unseal(state: &TpmState, request: &Request) -> (r: TpmResult<Response>)
    requires
        state.wf(),
    ensures
        unseal_ran(*state, request@, r),
{
    let h: u32 = request.handle(0)?;
    let object: &Object = match object_of(state, h) {
        Ok(o) => o,
        Err(e) => {
            return Err(e.with_handle(1));
        },
    };
    if object.public.object_type != alg::KEYEDHASH {
        return Err(TpmRc(rc::TYPE).with_handle(1));
    }
    let a: ObjectAttributes = object.public.object_attributes;
    if a.has(ObjectAttributes::SIGN_ENCRYPT) || a.has(ObjectAttributes::DECRYPT) {
        return Err(TpmRc(rc::ATTRIBUTES).with_handle(1));
    }
    match &object.sensitive {
        None => Err(TpmRc(rc::HANDLE).with_handle(1)),
        Some(s) => {
            let data: &[u8] = s.sensitive.as_slice();
            if data.len() > 128 {
                return Err(TpmRc(rc::SIZE));
            }
            let mut w: Writer = Writer::new();
            w.sized16(data);
            assert(w.written() =~= sized(data@));
            respond(w)
        },
    }
}

/// The sensitive area of a child with another authorization value, protected
/// for its parent again. The object that is loaded does not change.
pub open spec fn changed_auth(o: Object, parent: Object, s: SymDef, auth: Seq<u8>) -> TpmResult<
    Seq<u8>,
> {
    if o.qualified_name@ != qualified_name_of(
        o.public.name_alg,
        parent.qualified_name@,
        o.name@,
    ) {
        Err(TpmRc(rc::TYPE).for_handle(1))
    } else {
        match o.sensitive {
            None => Err(TpmRc(rc::HANDLE).for_handle(1)),
            Some(sensitive) => if !supported(o.public.name_alg) {
                Err(TpmRc(rc::HASH))
            } else if auth.len() > size_of(o.public.name_alg) {
                Err(TpmRc(rc::SIZE).for_parameter(1))
            } else {
                private_made(
                    parent,
                    s,
                    o.name@,
                    SensitiveView { auth_value: auth, ..sensitive@ },
                )
            },
        }
    }
}

/// TPM2_ObjectChangeAuth.
pub open spec fn object_change_auth_ran(state: TpmState, req: RequestView, r: TpmResult<Response>)
    -> bool {
    match (
        req.handle(0),
        req.handle(1),
        alone(req.parameters, in_sized(req.parameters, 0, 64, 1)),
    ) {
        (Err(e), _, _) => fails(r, e),
        (_, Err(e), _) => fails(r, e),
        (_, _, Err(e)) => fails(r, e),
        (Ok(h), Ok(p), Ok(auth)) => match (parent_named(state, p), object_named(state, h)) {
            (Err(e), _) => fails(r, e.for_handle(2)),
            (_, Err(e)) => fails(r, e.for_handle(1)),
            (Ok((parent, s)), Ok(o)) => match changed_auth(o, parent, s, auth) {
                Err(e) => fails(r, e),
                Ok(private) => answers_with(r, sized(private)),
            },
        },
    }
}

/// Protect a child with another authorization value.
fn change_auth(
    object: &Object,
    parent: &Parent,
    auth: Vec<u8>,
    Ghost(o): Ghost<Object>,
    Ghost(s): Ghost<SymDef>,
) -> (r: TpmResult<Vec<u8>>)
    requires
        parent.is(o, s),
        auth@.len() <= 64,
    ensures
        match changed_auth(*object, o, s, auth@) {
            Ok(v) => r is Ok && r->Ok_0@ == v && v.len() <= 1024,
            Err(e) => r is Err && r->Err_0 == e,
        },
{
    let qn: Vec<u8> = qualified_name(
        object.public.name_alg,
        parent.qualified_name.as_slice(),
        object.name.as_slice(),
    );
    if !constant_time_eq(qn.as_slice(), object.qualified_name.as_slice()) {
        return Err(TpmRc(rc::TYPE).with_handle(1));
    }
    match &object.sensitive {
        None => Err(TpmRc(rc::HANDLE).with_handle(1)),
        Some(sensitive) => {
            let size: usize = digest_size(object.public.name_alg)?;
            if auth.len() > size {
                return Err(TpmRc(rc::SIZE).with_parameter(1));
            }
            let mut updated: TpmtSensitive = sensitive.clone();
            updated.auth_value = Tpm2bDigest::new(auth)?;
            make_private(parent, object.name.as_slice(), &updated, Ghost(o), Ghost(s))
        },
    }
}

/// TPM2_ObjectChangeAuth: a protected copy of a child with another
/// authorization value.
pub fn object_change_auth(state: &mut TpmState, request: &Request) -> (r: TpmResult<Response>)
    requires
        old(state).wf(),
    ensures
        *final(state) == *old(state),
        object_change_auth_ran(*old(state), request@, r),
{
    let h: u32 = request.handle(0)?;
    let p: u32 = request.handle(1)?;
    let mut reader: Reader = request.reader();
    let auth: Vec<u8> = read_sized::<64>(&mut reader, 1)?;
    reader.expect_end()?;
    let parent: Parent = match parent_of(state, p) {
        Ok(v) => v,
        Err(e) => {
            return Err(e.with_handle(2));
        },
    };
    let object: &Object = match object_of(state, h) {
        Ok(o) => o,
        Err(e) => {
            return Err(e.with_handle(1));
        },
    };
    let ghost o = parent_named(*state, p)->Ok_0.0;
    let ghost s = parent_named(*state, p)->Ok_0.1;
    let private: Vec<u8> = change_auth(object, &parent, auth, Ghost(o), Ghost(s))?;
    let mut w: Writer = Writer::new();
    w.sized16(private.as_slice());
    assert(w.written() =~= sized(private@));
    respond(w)
}

/// What TPM2_Create hands out comes back under the same parent: the sensitive
/// area that is read out of it is the one that was made.
pub proof fn law_a_child_comes_back_from_its_parent(
    m: RngModel,
    o: Object,
    sym: SymDef,
    t: PublicView,
    auth: Seq<u8>,
    data: Seq<u8>,
)
    requires
        data.len() <= 128,
    ensures
        match child_made(m, o, sym, t, auth, data).0 {
            Ok((p, s, private)) => sensitive_under(o, sym, p, private) == Ok::<
                SensitiveView,
                TpmRc,
            >(s),
            Err(_) => true,
        },
{
    match child_made(m, o, sym, t, auth, data).0 {
        Ok((p, s, _)) => {
            super::creation::lemma_created_fits(m, t, auth, data);
            crate::tpm::structures::keys::law_a_sensitive_area_round_trips(s);
            crate::tpm::engine::protect::law_a_private_area_round_trips(
                o.public.name_alg,
                o.seed_of(),
                sym,
                object_name_of(p),
                s.octets(),
            );
        },
        Err(_) => {},
    }
}

/// What TPM2_Create handed out, TPM2_Load takes back under the same parent: the
/// object it loads has the public area and the sensitive area that were made.
pub proof fn law_a_created_object_can_be_loaded(
    m: RngModel,
    o: Object,
    sym: SymDef,
    t: PublicView,
    auth: Seq<u8>,
    data: Seq<u8>,
    state: TpmState,
    req: RequestView,
    h: u32,
)
    requires
        data.len() <= 128,
        creation_check(t) is Ok,
        child_made(m, o, sym, t, auth, data).0 is Ok,
        req.handle(0) == Ok::<u32, TpmRc>(h),
        parent_named(state, h) == Ok::<(Object, SymDef), TpmRc>((o, sym)),
        ({
            let (p, s, private) = child_made(m, o, sym, t, auth, data).0->Ok_0;
            alone(req.parameters, parse_load(req.parameters)) == Ok::<
                (Seq<u8>, PublicView),
                TpmRc,
            >((private, p))
        }),
    ensures
        ({
            let (p, s, private) = child_made(m, o, sym, t, auth, data).0->Ok_0;
            let made = object_made(
                p,
                Some(s),
                o.hierarchy,
                o.qualified_name@,
                false,
                o.state_clear,
            );
            load_outcome(state, req) == Ok::<(ObjectView, Seq<u8>), TpmRc>(
                (made, sized(made.name)),
            )
        }),
{
    let (p, s, private) = child_made(m, o, sym, t, auth, data).0->Ok_0;
    law_a_child_comes_back_from_its_parent(m, o, sym, t, auth, data);
    lemma_created_binds(m, t, auth, data);
    assert(loaded_check(p) == loaded_check(t)) by {
        reveal(loaded_check);
    }
    assert(private.len() > 0) by {
        reveal(recovered);
    }
}

/// TPM2_CreateLoaded and TPM2_CreatePrimary agree: for one template, one
/// authorization value and one set of data they load the same object under a
/// hierarchy.
pub proof fn law_both_ways_make_the_same_primary_object(
    state: TpmState,
    loaded: RequestView,
    primary: RequestView,
    h: u32,
    i: CreateView,
    blob: Seq<u8>,
)
    requires
        is_hierarchy(h),
        !names_derivation_parent(state, h),
        loaded.handle(0) == Ok::<u32, TpmRc>(h),
        primary.handle(0) == Ok::<u32, TpmRc>(h),
        alone(primary.parameters, parse_create(primary.parameters)) == Ok::<CreateView, TpmRc>(i),
        alone(loaded.parameters, parse_create_loaded(loaded.parameters)) == Ok::<
            (Seq<u8>, Seq<u8>, Seq<u8>),
            TpmRc,
        >((i.auth, i.data, blob)),
        TpmtPublic::alone(blob, false) == Ok::<PublicView, TpmRc>(i.template),
    ensures
        match (
            create_loaded_outcome(state, h, i.auth, i.data, blob),
            create_primary_outcome(state, primary),
        ) {
            (Ok(a), Ok(b)) => a.0 == b.0,
            (Err(_), Err(_)) => true,
            _ => false,
        },
{
}

/// A copy of a child with another authorization value comes back with it and
/// with nothing else changed.
pub proof fn law_only_the_authorization_changes(o: Object, parent: Object, s: SymDef, auth: Seq<u8>)
    requires
        auth.len() <= 64,
        o.sensitive matches Some(x) ==> x@.fits(),
        o.name@ == object_name_of(o.public@),
    ensures
        match changed_auth(o, parent, s, auth) {
            Ok(private) => sensitive_under(parent, s, o.public@, private) == Ok::<
                SensitiveView,
                TpmRc,
            >(SensitiveView { auth_value: auth, ..o.sensitive->0@ }),
            Err(_) => true,
        },
{
    if changed_auth(o, parent, s, auth) is Ok {
        let v = SensitiveView { auth_value: auth, ..o.sensitive->0@ };
        crate::tpm::structures::keys::law_a_sensitive_area_round_trips(v);
        crate::tpm::engine::protect::law_a_private_area_round_trips(
            parent.public.name_alg,
            parent.seed_of(),
            s,
            o.name@,
            v.octets(),
        );
    }
}

/// The same seed, template and data make the same Primary Object under another
/// authorization value: only the authorization value differs.
pub proof fn law_a_primary_object_can_be_made_again(
    state: TpmState,
    hierarchy: u32,
    t: PublicView,
    a: Seq<u8>,
    b: Seq<u8>,
    data: Seq<u8>,
)
    requires
        a.len() <= size_of(effective(t.name_alg)),
        b.len() <= size_of(effective(t.name_alg)),
    ensures
        match (
            primary_made(state, hierarchy, t, a, data),
            primary_made(state, hierarchy, t, b, data),
        ) {
            (Ok(x), Ok(y)) => x == (ObjectView {
                sensitive: Some(
                    SensitiveView { auth_value: a, ..y.sensitive->0 },
                ),
                ..y
            }),
            (Err(x), Err(y)) => x == y,
            _ => false,
        },
{
    reveal(created);
}

/// An object that is made of a public area and a sensitive area that were
/// checked can be restored.
proof fn lemma_made_restorable(
    public: PublicView,
    sensitive: Option<SensitiveView>,
    hierarchy: u32,
    parent: Seq<u8>,
    tpm_generated: bool,
    inherited: bool,
)
    requires
        public.fits(),
        sensitive matches Some(s) ==> s.fits(),
        restored_check(public, sensitive) is Ok,
    ensures
        restorable(object_made(public, sensitive, hierarchy, parent, tpm_generated, inherited)),
{
    broadcast use lemma_hash_len;

}

/// A key that was made of a template can be restored.
proof fn lemma_created_restorable(
    m: RngModel,
    t: PublicView,
    auth: Seq<u8>,
    data: Seq<u8>,
    hierarchy: u32,
    parent: Seq<u8>,
    inherited: bool,
)
    requires
        t.template_fits(),
        creation_check(t) is Ok,
        data.len() <= 128,
    ensures
        match created(m, t, auth, data).0 {
            Ok((s, id)) => restorable(
                object_made(
                    PublicView { unique: id, ..t },
                    Some(s),
                    hierarchy,
                    parent,
                    true,
                    inherited,
                ),
            ),
            Err(_) => true,
        },
{
    lemma_created_fits(m, t, auth, data);
    lemma_created_id_fits(m, t, auth, data);
    lemma_created_binds(m, t, auth, data);
    match created(m, t, auth, data).0 {
        Ok((s, id)) => {
            let p = PublicView { unique: id, ..t };
            assert(loaded_check(p) == loaded_check(t)) by {
                reveal(loaded_check);
            }
            lemma_made_restorable(p, Some(s), hierarchy, parent, true, inherited);
        },
        Err(_) => {},
    }
}

/// What TPM2_CreatePrimary, TPM2_Load and TPM2_LoadExternal load can be saved and
/// restored: it passes what TPM2_ContextLoad applies to it.
pub proof fn law_what_is_loaded_can_be_restored(state: TpmState, req: RequestView)
    ensures
        create_primary_outcome(state, req) matches Ok((o, _)) ==> restorable(o),
        load_outcome(state, req) matches Ok((o, _)) ==> restorable(o),
        load_external_outcome(state, req) matches Ok((o, _)) ==> restorable(o),
{
    lemma_primary_restorable(state, req);
    lemma_load_restorable(state, req);
    lemma_external_restorable(state, req);
}

proof fn lemma_primary_restorable(state: TpmState, req: RequestView)
    ensures
        create_primary_outcome(state, req) matches Ok((o, _)) ==> restorable(o),
{
    if create_primary_outcome(state, req) is Ok {
        let h = req.handle(0)->Ok_0;
        let i = parse_create(req.parameters)->Ok_0.0;
        let n1 = parse_sensitive_create(req.parameters, 0)->Ok_0.1;
        lemma_read_public_fits(parse_sized(req.parameters, n1, 0xFFFF)->Ok_0.0, 0, false);
        lemma_created_restorable(
            seeded(
                effective(i.template.name_alg),
                state.hierarchies.spec_get(h).seed@ + (LABEL_PRIMARY@ + seq![0u8] + primary_input(
                    i.template,
                    i.data,
                )),
            ),
            i.template,
            i.auth,
            i.data,
            h,
            octets32(h),
            false,
        );
    }
}

proof fn lemma_load_restorable(state: TpmState, req: RequestView)
    ensures
        load_outcome(state, req) matches Ok((o, _)) ==> restorable(o),
{
    if load_outcome(state, req) is Ok {
        let h = req.handle(0)->Ok_0;
        let (private, public) = parse_load(req.parameters)->Ok_0.0;
        let n1 = in_sized(req.parameters, 0, 1024, 1)->Ok_0.1;
        lemma_read_public_fits(parse_sized(req.parameters, n1, 0xFFFF)->Ok_0.0, 0, false);
        let (o, s) = parent_named(state, h)->Ok_0;
        let plain = private_of_parent(
            o.public.name_alg,
            o.seed_of(),
            s,
            object_name_of(public),
            private,
        )->Ok_0;
        lemma_read_sensitive_fits(plain, 0);
        let sensitive = sensitive_under(o, s, public, private)->Ok_0;
        lemma_made_restorable(
            public,
            Some(sensitive),
            o.hierarchy,
            o.qualified_name@,
            false,
            o.state_clear,
        );
    }
}

proof fn lemma_external_restorable(state: TpmState, req: RequestView)
    ensures
        load_external_outcome(state, req) matches Ok((o, _)) ==> restorable(o),
{
    if load_external_outcome(state, req) is Ok {
        let (private, public, hierarchy) = parse_load_external(req.parameters)->Ok_0.0;
        let n1 = parse_optional_sensitive(req.parameters, 0)->Ok_0.1;
        lemma_read_sensitive_fits(parse_sized(req.parameters, 0, 0xFFFF)->Ok_0.0, 0);
        lemma_read_public_fits(parse_sized(req.parameters, n1, 0xFFFF)->Ok_0.0, 0, false);
        lemma_made_restorable(public, private, hierarchy, octets32(hierarchy), false, false);
    }
}

/// What TPM2_CreateLoaded loads, a Derived Object, a Primary Object or a child,
/// can be saved and restored.
pub proof fn law_what_is_created_can_be_restored(
    state: TpmState,
    h: u32,
    auth: Seq<u8>,
    data: Seq<u8>,
    blob: Seq<u8>,
    m: RngModel,
    o: Object,
    s: SymDef,
)
    requires
        data.len() <= 128,
    ensures
        create_loaded_outcome(state, h, auth, data, blob) matches Ok((x, _)) ==> restorable(x),
        plain_template(blob) matches Ok(t) ==> (loaded_child(m, o, s, t, auth, data) matches Ok(
            (x, _),
        ) ==> restorable(x)),
{
    lemma_read_public_fits(blob, 0, false);
    lemma_read_public_fits(blob, 0, true);
    match plain_template(blob) {
        Ok(t) => {
            lemma_created_restorable(
                m,
                t,
                auth,
                data,
                o.hierarchy,
                o.qualified_name@,
                o.state_clear,
            );
            lemma_created_restorable(
                seeded(
                    effective(t.name_alg),
                    state.hierarchies.spec_get(h).seed@ + (LABEL_PRIMARY@ + seq![0u8]
                        + primary_input(t, data)),
                ),
                t,
                auth,
                data,
                h,
                octets32(h),
                false,
            );
        },
        Err(_) => {},
    }
    if names_derivation_parent(state, h) {
        lemma_derived_restorable(object_named(state, h)->Ok_0, auth, data, blob);
    }
}

proof fn lemma_derived_restorable(o: Object, auth: Seq<u8>, data: Seq<u8>, blob: Seq<u8>)
    ensures
        derive_outcome(o, auth, data, blob) matches Ok((x, _)) ==> restorable(x),
{
    if derive_outcome(o, auth, data, blob) is Ok {
        lemma_read_public_fits(blob, 0, true);
        let t = derived_template(blob)->Ok_0;
        let (label, context) = label_and_context_of(t.unique, data)->Ok_0;
        let octets = kdfa(
            o.public.name_alg,
            derives(o)->Ok_0,
            label,
            context,
            Seq::empty(),
            8192,
        );
        let m = RngModel::Fixed { octets, used: 0 };
        lemma_derived_binds(m, t, auth);
        let (s, id) = derived(m, t, auth).0->Ok_0;
        let p = PublicView { unique: id, ..t };
        assert(loaded_check(p) == loaded_check(t)) by {
            reveal(loaded_check);
        }
        lemma_made_restorable(p, Some(s), o.hierarchy, o.qualified_name@, true, o.state_clear);
    }
}

/// TPM2_CreatePrimary makes one object of one seed, one template and one set of
/// data: two commands that succeed answer with the same public area and the same
/// Name and load the same object, each with its own authorization value, whatever
/// was done in between that keeps the seed.
pub proof fn law_creating_again_answers_alike(
    first: TpmState,
    first_after: TpmState,
    second: TpmState,
    second_after: TpmState,
    one: RequestView,
    two: RequestView,
    h: u32,
    i: CreateView,
    j: CreateView,
    a: TpmResult<Response>,
    b: TpmResult<Response>,
)
    requires
        one.handle(0) == Ok::<u32, TpmRc>(h),
        two.handle(0) == Ok::<u32, TpmRc>(h),
        alone(one.parameters, parse_create(one.parameters)) == Ok::<CreateView, TpmRc>(i),
        alone(two.parameters, parse_create(two.parameters)) == Ok::<CreateView, TpmRc>(j),
        i.template == j.template,
        i.data == j.data,
        first.hierarchies.spec_get(h).seed@ == second.hierarchies.spec_get(h).seed@,
        only_loads(first_after, first, create_primary_outcome(first, one), a),
        only_loads(second_after, second, create_primary_outcome(second, two), b),
        a is Ok,
        b is Ok,
    ensures
        ({
            let x = first_after.objects.object_at(a->Ok_0.handle->0)@;
            let y = second_after.objects.object_at(b->Ok_0.handle->0)@;
            &&& x.public == y.public
            &&& x.name == y.name
            &&& x.sensitive matches Some(s) && s.auth_value == i.auth
            &&& y.sensitive matches Some(t) && t.auth_value == j.auth
            &&& x == (ObjectView {
                sensitive: Some(SensitiveView { auth_value: i.auth, ..y.sensitive->0 }),
                ..y
            })
            &&& exists|area: Seq<u8>|
                a->Ok_0.parameters@ == #[trigger] (sized(x.public.octets()) + area + sized(x.name))
            &&& exists|area: Seq<u8>|
                b->Ok_0.parameters@ == #[trigger] (sized(x.public.octets()) + area + sized(x.name))
        }),
{
    reveal(created);
    let x = primary_made(first, h, i.template, i.auth, i.data)->Ok_0;
    let y = primary_made(second, h, j.template, j.auth, j.data)->Ok_0;
    assert(first_after.objects.object_at(a->Ok_0.handle->0)@ == x);
    assert(second_after.objects.object_at(b->Ok_0.handle->0)@ == y);
    law_a_primary_object_can_be_made_again(first, h, i.template, i.auth, j.auth, i.data);
    let under = ParentNames {
        name_alg: alg::NULL,
        name: octets32(h),
        qualified_name: octets32(h),
    };
    let c = creation_area(first, under, h, i, one.locality, x.name)->Ok_0;
    let d = creation_area(second, under, h, j, two.locality, y.name)->Ok_0;
    assert(a->Ok_0.parameters@ == sized(x.public.octets()) + c + sized(x.name));
    assert(b->Ok_0.parameters@ == sized(y.public.octets()) + d + sized(y.name));
}

/// Two templates that differ, or two sets of data, are hashed from different octets:
/// the keys that are made of them are the same only where the hashes are.
pub proof fn law_a_primary_object_depends_on_its_whole_template(
    t: PublicView,
    u: PublicView,
    a: Seq<u8>,
    b: Seq<u8>,
)
    requires
        t.fits(),
        u.fits(),
        a.len() <= 128,
        b.len() <= 128,
    ensures
        t.octets() + sized(a) == u.octets() + sized(b) <==> t == u && a == b,
{
    let x = t.octets() + sized(a);
    let y = u.octets() + sized(b);
    if x == y {
        lemma_holds_all(x);
        lemma_holds_both(x, 0, t.octets(), sized(a));
        lemma_holds_all(y);
        lemma_holds_both(y, 0, u.octets(), sized(b));
        lemma_public_reads(x, 0, t);
        lemma_public_reads(y, 0, u);
        assert(t == u);
        lemma_holds_sized(x, t.octets().len() as int, a, 128);
        lemma_holds_sized(y, u.octets().len() as int, b, 128);
    }
}

/// TPM2_Load refuses a changed private area, or the private area of another
/// object, and loads nothing, unless the integrity value in it is by chance the
/// HMAC of what is there under that Name.
pub proof fn law_a_changed_private_area_is_refused(
    after: TpmState,
    before: TpmState,
    req: RequestView,
    h: u32,
    o: Object,
    s: SymDef,
    private: Seq<u8>,
    public: PublicView,
    r: TpmResult<Response>,
)
    requires
        req.handle(0) == Ok::<u32, TpmRc>(h),
        parent_named(before, h) == Ok::<(Object, SymDef), TpmRc>((o, s)),
        alone(req.parameters, parse_load(req.parameters)) == Ok::<(Seq<u8>, PublicView), TpmRc>(
            (private, public),
        ),
        parse_sized(private, 0, 64) matches Ok((given, next)) ==> given != integrity_of(
            o.public.name_alg,
            o.seed_of(),
            private.skip(next),
            object_name_of(public),
        ),
        only_loads(after, before, load_outcome(before, req), r),
    ensures
        r is Err,
        after.objects == before.objects,
        private.len() > 0 && loaded_check(public) is Ok && action_check(public) is Ok && protects(
            o.public.name_alg,
            s,
        ) is Ok ==> fails(r, TpmRc(rc::INTEGRITY)),
{
    law_only_an_intact_blob_is_recovered(
        o.public.name_alg,
        o.seed_of(),
        s.key_bits,
        object_name_of(public),
        private,
    );
    reveal(recovered);
}

/// Every loaded object can be saved and restored.
pub open spec fn all_restorable(state: TpmState) -> bool {
    forall|h: u32| #[trigger]
        state.objects.has_object(h) ==> restorable(state.objects.object_at(h)@)
}

/// A command that loads an object that can be restored, or fails, leaves every
/// loaded object one that can be.
pub proof fn law_every_loaded_object_can_be_restored(
    after: TpmState,
    before: TpmState,
    out: TpmResult<(ObjectView, Seq<u8>)>,
    r: TpmResult<Response>,
)
    requires
        all_restorable(before),
        out matches Ok((o, _)) ==> restorable(o),
        loads(after, before, out, r),
    ensures
        all_restorable(after),
{
    assert forall|h: u32| #[trigger] after.objects.has_object(h) implies restorable(
        after.objects.object_at(h)@,
    ) by {
        if after.objects.slots@ == before.objects.slots@ || h != r->Ok_0.handle->0 {
            assert(before.objects.has_object(h));
        }
    }
}

} // verus!
