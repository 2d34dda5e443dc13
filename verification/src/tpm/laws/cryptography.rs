//! What the cryptographic commands answer with.

use vstd::prelude::*;

use crate::tpm::commands::crypto::{
    activate_credential_ran, credential_made, ecdh_of, encrypt_decrypt_ran, make_credential_ran,
    parse_activate, parse_cipher, rsa_decrypted, rsa_encrypted, sign_check, sign_ran,
    verify_signature_ran, CipherInput,
};
use crate::tpm::commands::dispatch::{RequestView, Response};
use crate::tpm::commands::duplication::{
    duplicate_check, duplicate_ran, import_ran, inner_wrapped, parse_import, second_phase,
    ImportInput,
};
use crate::tpm::commands::sequences::{
    hash_command_ran, hmac_command_ran, parse_buffer_and_alg, parse_sequence_complete,
    sequence_complete_ran, sequence_update_ran,
};
use crate::tpm::commands::signatures::{object_named, signature_made, verification};
use crate::tpm::commands::wire::alone;
use crate::tpm::crypto::bn::{inverse, number_of, octet_length, octets_of, power_mod};
use crate::tpm::crypto::ecc::{added, curve_of, ecdsa_verifies, multiplied, on_curve, CurveModel};
use crate::tpm::crypto::hash::{hash_of, lemma_hash_len, size_of, supported};
use crate::tpm::crypto::hmac::hmac_of;
use crate::tpm::crypto::rand::{Rng, RngModel};
use crate::tpm::crypto::rsa_padding::{encryption_block, mask_of, oaep_block, pss_verifies};
use crate::tpm::crypto::sym::{crypted, Direction};
use crate::tpm::engine::object::{Object, ObjectView, SequenceKind};
use crate::tpm::engine::protect::{protected, recovered};
use crate::tpm::engine::state::TpmState;
use crate::tpm::error::{TpmRc, TpmResult};
use crate::tpm::marshal::{
    holds, lemma_holds_all, lemma_holds_both, lemma_holds_sized, lemma_holds_u16, lemma_holds_u32,
    sized,
};
use crate::tpm::structures::keys::{IdView, SensitiveView};
use crate::tpm::structures::schemes::{Scheme, SymDef};
use crate::tpm::structures::signature::SignatureView;
use crate::util::bytes::{be32, octets16, octets32};

verus! {

/// The ticket for a digest that the TPM made: where a hierarchy was asked for and the
/// data does not begin as what the TPM makes itself does, the HMAC under its proof over
/// TPM_ST_HASHCHECK, the hash and the digest. Else it is empty.
pub open spec fn hash_ticket(
    state: TpmState,
    hierarchy: u32,
    h: u16,
    data: Seq<u8>,
    d: Seq<u8>,
) -> Seq<u8> {
    if hierarchy == 0x4000_0007 || (data.len() >= 4 && be32(data, 0) == 0xFF54_4347) {
        octets16(0x8024) + octets32(0x4000_0007) + sized(Seq::empty())
    } else {
        octets16(0x8024) + octets32(hierarchy) + sized(
            hmac_of(
                0x000B,
                state.hierarchies.spec_get(hierarchy).proof_value@,
                octets16(0x8024) + octets16(h) + d,
            ),
        )
    }
}

/// Hash answers with the hash of the data and a ticket for it.
pub proof fn law_hash_answers_with_the_hash(
    state: TpmState,
    req: RequestView,
    r: TpmResult<Response>,
    data: Seq<u8>,
    h: u16,
    hierarchy: u32,
)
    requires
        hash_command_ran(state, req, r),
        data.len() <= 1024,
        req.parameters.len() == data.len() + 8,
        holds(req.parameters, 0, sized(data) + octets16(h) + octets32(hierarchy)),
        r is Ok,
    ensures
        r->Ok_0.parameters@ == sized(hash_of(h, data)) + hash_ticket(
            state,
            hierarchy,
            h,
            data,
            hash_of(h, data),
        ),
{
    let d = req.parameters;
    lemma_holds_both(d, 0, sized(data) + octets16(h), octets32(hierarchy));
    lemma_holds_both(d, 0, sized(data), octets16(h));
    lemma_holds_sized(d, 0, data, 1024);
    lemma_holds_u16(d, 2 + data.len() as int, h);
    lemma_holds_u32(d, 4 + data.len() as int, hierarchy);
}

/// HMAC answers with the HMAC of the data under the key of a symmetric object that
/// signs.
pub proof fn law_hmac_answers_with_the_hmac(
    state: TpmState,
    req: RequestView,
    r: TpmResult<Response>,
    data: Seq<u8>,
    requested: u16,
)
    requires
        hmac_command_ran(state, req, r),
        alone(req.parameters, parse_buffer_and_alg(req.parameters, 1024)) == Ok::<
            (Seq<u8>, u16),
            TpmRc,
        >((data, requested)),
        r is Ok,
    ensures
        req.handles.len() > 0,
        object_named(state, req.handles[0]) is Ok,
        ({
            let o = object_named(state, req.handles[0])->Ok_0;
            &&& o.public.object_type == 0x0008
            &&& o.public.object_attributes.0 & 0x40000 == 0x40000
            &&& o.sensitive is Some
            &&& exists|h: u16|
                (requested != 0x0010 ==> h == requested) && r->Ok_0.parameters@ == sized(
                    #[trigger] hmac_of(h, o.sensitive->0.sensitive@, data),
                )
        }),
{
}

/// A sequence that is updated holds what it held and the new data behind it, and keeps
/// its hash, its key and its value.
pub proof fn law_a_sequence_grows(
    after: TpmState,
    before: TpmState,
    req: RequestView,
    r: TpmResult<Response>,
    data: Seq<u8>,
)
    requires
        sequence_update_ran(after, before, req, r),
        data.len() <= 1024,
        req.parameters == sized(data),
        req.handles.len() > 0,
        r is Ok,
    ensures
        ({
            let h = req.handles[0];
            let was = (*before.objects.slots@[h]->Sequence_0)@;
            let now = (*after.objects.slots@[h]->Sequence_0)@;
            &&& before.objects.slots@.contains_key(h)
            &&& before.objects.slots@[h] is Sequence
            &&& now.buffer == was.buffer + data
            &&& now.kind == was.kind
            &&& now.auth == was.auth
            &&& forall|k: u32|
                k != h && before.objects.slots@.contains_key(k) ==> after.objects.slots@[k]
                    == #[trigger] before.objects.slots@[k]
        }),
{
    lemma_holds_all(req.parameters);
    lemma_holds_sized(req.parameters, 0, data, 1024);
}

/// A completed sequence answers with the hash, or the HMAC under its key, of all that it
/// was given. Only a hash has a ticket.
pub proof fn law_a_sequence_answers_for_all_of_it(
    state: TpmState,
    req: RequestView,
    r: TpmResult<Response>,
    last: Seq<u8>,
    hierarchy: u32,
)
    requires
        sequence_complete_ran(state, req, r),
        alone(req.parameters, parse_sequence_complete(req.parameters)) == Ok::<
            (Seq<u8>, u32),
            TpmRc,
        >((last, hierarchy)),
        r is Ok,
    ensures
        req.handles.len() > 0,
        ({
            let h = req.handles[0];
            let s = *state.objects.slots@[h]->Sequence_0;
            let all = s.buffer@ + last;
            &&& state.objects.slots@.contains_key(h)
            &&& state.objects.slots@[h] is Sequence
            &&& s.kind matches SequenceKind::Hash { hash_alg } ==> r->Ok_0.parameters@ == sized(
                hash_of(hash_alg, all),
            ) + hash_ticket(state, hierarchy, hash_alg, all, hash_of(hash_alg, all))
            &&& s.kind matches SequenceKind::Hmac { hash_alg, key } ==> r->Ok_0.parameters@
                == sized(hmac_of(hash_alg, key@, all)) + (octets16(0x8024) + octets32(0x4000_0007)
                + sized(Seq::empty()))
            &&& !(s.kind is Event)
        }),
{
}

/// Sign answers with a signature over the digest that was sent, by the scheme of the
/// key where it has one, with a key that signs. A restricted key signs only what has a
/// ticket.
pub proof fn law_sign_signs_the_digest(
    after: TpmState,
    before: TpmState,
    req: RequestView,
    r: TpmResult<Response>,
)
    requires
        sign_ran(after, before, req, r),
        r is Ok,
    ensures
        sign_check(before, req) is Ok,
        ({
            let (o, scheme, d) = sign_check(before, req)->Ok_0;
            let made = signature_made(before.rng.model(), o, scheme, d).0;
            &&& d.len() <= 64
            &&& req.parameters.len() >= 2 + d.len()
            &&& req.parameters.subrange(2, 2int + d.len()) == d
            &&& o.public.object_attributes.0 & 0x40000 == 0x40000
            &&& o.sensitive is Some
            &&& made is Ok
            &&& r->Ok_0.parameters@ == octets16(made->Ok_0.0) + made->Ok_0.1.octets()
            &&& after == (TpmState { rng: after.rng, ..before })
        }),
{
}

/// VerifySignature answers only for a signature that holds, with a ticket: the HMAC
/// under the proof of the key's hierarchy over TPM_ST_VERIFIED, the digest and the Name
/// of the key.
pub proof fn law_a_verified_signature_has_a_ticket(
    state: TpmState,
    req: RequestView,
    r: TpmResult<Response>,
    d: Seq<u8>,
    sig_alg: u16,
    v: SignatureView,
)
    requires
        verify_signature_ran(state, req, r),
        alone(
            req.parameters,
            crate::tpm::commands::crypto::parse_verify(req.parameters),
        ) == Ok::<(Seq<u8>, u16, SignatureView), TpmRc>((d, sig_alg, v)),
        r is Ok,
    ensures
        req.handles.len() > 0,
        object_named(state, req.handles[0]) is Ok,
        ({
            let o = object_named(state, req.handles[0])->Ok_0;
            &&& verification(o@, d, sig_alg, v) is Ok
            &&& r->Ok_0.parameters@ == octets16(0x8022) + octets32(o.hierarchy) + sized(
                if o.hierarchy == 0x4000_0007 {
                    Seq::empty()
                } else {
                    hmac_of(
                        0x000B,
                        state.hierarchies.spec_get(o.hierarchy).proof_value@,
                        octets16(0x8022) + d + o.name@,
                    )
                },
            )
        }),
{
    let o = object_named(state, req.handles[0])->Ok_0;
    let all = octets16(0x8022) + d + o.name@;
    assert(all + Seq::<u8>::empty() =~= all);
    let head = octets16(0x8022) + octets32(o.hierarchy);
    assert(head + Seq::<u8>::empty() =~= head);
}

/// Data under another of the same size, octet by octet.
pub open spec fn under(a: Seq<u8>, b: Seq<u8>) -> Seq<u8> {
    Seq::new(a.len(), |i: int| a[i] ^ b[i])
}

/// An OAEP block: a zero octet, the seed under a mask of the data and the data under a
/// mask of the seed. The data is the hash of the label, zeros, a one and the message.
pub proof fn law_an_oaep_block_is_laid_out(
    h: u16,
    size: nat,
    message: Seq<u8>,
    label: Seq<u8>,
    seed: Seq<u8>,
)
    requires
        supported(h),
        seed.len() == size_of(h),
        message.len() + 2 * size_of(h) + 2 <= size,
    ensures
        ({
            let n = size_of(h);
            let data = hash_of(h, label) + Seq::new(
                (size - message.len() - 2 * n - 2) as nat,
                |i: int| 0u8,
            ) + seq![1u8] + message;
            let masked = under(data, mask_of(h, seed, (size - n - 1) as nat));
            &&& oaep_block(h, size, message, label, seed) == seq![0u8] + under(
                seed,
                mask_of(h, masked, n),
            ) + masked
            &&& oaep_block(h, size, message, label, seed).len() == size
        }),
{
    broadcast use lemma_hash_len;

    let n = size_of(h);
    let data = hash_of(h, label) + Seq::new(
        (size - message.len() - 2 * n - 2) as nat,
        |i: int| 0u8,
    ) + seq![1u8] + message;
    assert(crate::tpm::crypto::rsa_padding::oaep_data(h, size, message, label) =~= data);
    let masked = under(data, mask_of(h, seed, (size - n - 1) as nat));
    assert(crate::tpm::crypto::rsa_padding::xored(data, mask_of(h, seed, (size - n - 1) as nat))
        =~= masked);
    assert(crate::tpm::crypto::rsa_padding::xored(seed, mask_of(h, masked, n)) =~= under(
        seed,
        mask_of(h, masked, n),
    ));
}

/// An RSAES block: 00 02, octets that are not zero, 00 and the message.
pub proof fn law_an_rsaes_block_is_laid_out(message: Seq<u8>, fill: Seq<u8>)
    ensures
        ({
            let block = encryption_block(message, fill);
            &&& block.len() == 3 + fill.len() + message.len()
            &&& block[0] == 0
            &&& block[1] == 2
            &&& forall|i: int| 2 <= i < 2 + fill.len() ==> #[trigger] block[i] != 0
            &&& forall|i: int|
                0 <= i < fill.len() && fill[i] != 0 ==> block[2 + i] == #[trigger] fill[i]
            &&& block[2 + fill.len() as int] == 0
            &&& block.skip(3 + fill.len() as int) == message
        }),
{
    let block = encryption_block(message, fill);
    let filled = fill.map_values(|v: u8| crate::tpm::crypto::rsa_padding::filling(v));
    assert forall|i: int| 2 <= i < 2 + fill.len() implies #[trigger] block[i] != 0 by {
        assert(block[i] == filled[i - 2]);
    }
    assert forall|i: int| 0 <= i < fill.len() && fill[i] != 0 implies block[2 + i]
        == #[trigger] fill[i] by {
        assert(block[2 + i] == filled[i]);
    }
    assert(block.skip(3 + fill.len() as int) =~= message);
}

/// The hash of eight zeros, a digest and a salt.
pub open spec fn salted(h: u16, d: Seq<u8>, salt: Seq<u8>) -> Seq<u8> {
    hash_of(h, seq![0u8, 0u8, 0u8, 0u8, 0u8, 0u8, 0u8, 0u8] + d + salt)
}

/// An accepted RSAPSS block ends with BC, holds before it the hash of eight zeros, the
/// digest and the salt, and the salt behind zeros and a one under a mask of that hash.
pub proof fn law_an_accepted_rsapss_block_is_salted(h: u16, d: Seq<u8>, em: Seq<u8>, bits: nat)
    requires
        pss_verifies(h, d, em, bits),
    ensures
        em.last() == 0xBC,
        em.len() == (bits + 6) / 8,
        ({
            let n = em.len() - size_of(h) - 1;
            let tail = em.subrange(n, em.len() - 1);
            exists|salt: Seq<u8>|
                tail == #[trigger] salted(h, d, salt)
        }),
{
    let data = crate::tpm::crypto::rsa_padding::pss_opened(h, em, bits);
    let at = crate::tpm::crypto::rsa_padding::first_nonzero(data, 0);
    let salt = data.skip(at + 1);
    assert(crate::tpm::crypto::rsa_padding::repeated(0, 8) =~= seq![
        0u8,
        0u8,
        0u8,
        0u8,
        0u8,
        0u8,
        0u8,
        0u8,
    ]);
    assert(em.subrange(em.len() - size_of(h) - 1, em.len() - 1) == salted(h, d, salt));
}

/// RSA decryption is for a key that decrypts and is not restricted; RSA encryption for
/// one that decrypts.
pub proof fn law_rsa_keys_are_for_decryption(
    m: RngModel,
    o: ObjectView,
    scheme: Scheme,
    data: Seq<u8>,
    label: Seq<u8>,
)
    ensures
        rsa_decrypted(o, scheme, data, label) is Ok ==> o.public.object_type == 1
            && o.public.object_attributes.0 & 0x20000 == 0x20000 && o.public.object_attributes.0
            & 0x10000 != 0x10000 && o.sensitive is Some,
        rsa_encrypted(m, o, scheme, data, label).0 is Ok ==> o.public.object_type == 1
            && o.public.object_attributes.0 & 0x20000 == 0x20000,
{
}

/// Without a scheme a message is raised to the public exponent as it is.
pub proof fn law_plain_rsa_raises_the_message(
    m: RngModel,
    o: ObjectView,
    scheme: Scheme,
    modulus: Seq<u8>,
    data: Seq<u8>,
    label: Seq<u8>,
)
    requires
        o.public.unique == IdView::Rsa(modulus),
        o.public.parameters is Rsa,
        o.public.parameters->Rsa_scheme.scheme == 0x0010,
        scheme.scheme == 0x0010,
        rsa_encrypted(m, o, scheme, data, label).0 is Ok,
    ensures
        ({
            let e = o.public.parameters->Rsa_exponent;
            let n = number_of(modulus);
            &&& data.len() == octet_length(n)
            &&& number_of(data) < n
            &&& rsa_encrypted(m, o, scheme, data, label).0->Ok_0 == octets_of(
                power_mod(
                    number_of(data),
                    if e == 0 {
                        65537
                    } else {
                        e as nat
                    },
                    n,
                ),
                octet_length(n),
            )
        }),
{
}

/// Which way a cipher goes.
pub open spec fn way(decrypt: u8) -> Direction {
    if decrypt == 1 {
        Direction::Decrypt
    } else {
        Direction::Encrypt
    }
}

/// The cipher commands encrypt, or decrypt where asked, with the key of an unrestricted
/// symmetric object, and answer with the data and the next vector.
pub proof fn law_the_cipher_goes_as_asked(
    state: TpmState,
    req: RequestView,
    r: TpmResult<Response>,
    data_first: bool,
    i: CipherInput,
)
    requires
        encrypt_decrypt_ran(state, req, data_first, r),
        alone(req.parameters, parse_cipher(req.parameters, data_first)) == Ok::<
            CipherInput,
            TpmRc,
        >(i),
        r is Ok,
    ensures
        req.handles.len() > 0,
        object_named(state, req.handles[0]) is Ok,
        ({
            let o = object_named(state, req.handles[0])->Ok_0@;
            &&& o.public.object_type == 0x0025
            &&& o.public.object_attributes.0 & 0x10000 != 0x10000
            &&& o.sensitive is Some
            &&& o.public.parameters is SymCipher
            &&& i.decrypt <= 1
            &&& exists|mode: u16, iv: Seq<u8>|
                {
                    let out = #[trigger] crypted(
                        mode,
                        o.sensitive->0.sensitive,
                        iv,
                        i.data,
                        way(i.decrypt),
                    );
                    &&& i.mode != 0x0010 ==> mode == i.mode
                    &&& i.mode == 0x0010 ==> mode == o.public.parameters->SymCipher_sym.mode
                    &&& i.iv.len() > 0 ==> iv == i.iv
                    &&& r->Ok_0.parameters@ == sized(out.0) + sized(out.1)
                }
        }),
{
}

/// A credential is kept under the Name it is for: only the key that was named finds the
/// seed, and only with that Name does the HMAC hold.
pub proof fn law_a_credential_is_for_a_name(
    m: RngModel,
    o: Object,
    credential: Seq<u8>,
    name: Seq<u8>,
)
    requires
        credential_made(m, o, credential, name).0 is Ok,
    ensures
        ({
            let p = o.public;
            let sym = p.parameters.spec_symmetric();
            &&& sym is Some
            &&& p.object_attributes.0 & 0x10000 == 0x10000
            &&& p.object_attributes.0 & 0x20000 == 0x20000
            &&& exists|seed: Seq<u8>|
                credential_made(m, o, credential, name).0->Ok_0.0 == #[trigger] protected(
                    p.name_alg,
                    seed,
                    sym->0.key_bits,
                    name,
                    sized(credential),
                )
        }),
{
}

/// ActivateCredential answers with what was kept for the Name of the object at the
/// first handle.
pub proof fn law_a_credential_is_opened_for_the_object(
    state: TpmState,
    req: RequestView,
    r: TpmResult<Response>,
    blob: Seq<u8>,
    secret: Seq<u8>,
)
    requires
        activate_credential_ran(state, req, r),
        alone(req.parameters, parse_activate(req.parameters)) == Ok::<
            (Seq<u8>, Seq<u8>),
            TpmRc,
        >((blob, secret)),
        r is Ok,
    ensures
        req.handles.len() > 1,
        object_named(state, req.handles[0]) is Ok,
        object_named(state, req.handles[1]) is Ok,
        ({
            let a = object_named(state, req.handles[0])->Ok_0;
            let key = object_named(state, req.handles[1])->Ok_0;
            let bits = key.public.parameters.spec_symmetric()->0.key_bits;
            exists|seed: Seq<u8>|
                (#[trigger] recovered(key.public.name_alg, seed, bits, a.name@, blob)) == Ok::<
                    Seq<u8>,
                    TpmRc,
                >(r->Ok_0.parameters@)
        }),
{
    let a = object_named(state, req.handles[0])->Ok_0;
    let key = object_named(state, req.handles[1])->Ok_0;
    let (seed, sym) = crate::tpm::commands::crypto::credential_key(key, secret)->Ok_0;
    let body = recovered(key.public.name_alg, seed, sym.key_bits, a.name@, blob)->Ok_0;
    crate::util::bytes::lemma_be16(body[0], body[1]);
    assert(crate::util::bytes::be16(seq![body[0], body[1]], 0) == crate::util::bytes::be16(
        body,
        0,
    ));
    assert(body =~= r->Ok_0.parameters@);
}

/// An object that is fixed to its parent is not duplicated. One that asks for
/// encryption needs both an inner wrapper and a new parent.
pub proof fn law_what_is_fixed_is_not_duplicated(
    after: TpmState,
    before: TpmState,
    req: RequestView,
    r: TpmResult<Response>,
)
    requires
        duplicate_ran(after, before, req, r),
        r is Ok,
    ensures
        req.handles.len() > 1,
        object_named(before, req.handles[0]) is Ok,
        ({
            let o = object_named(before, req.handles[0])->Ok_0;
            &&& o.public.object_attributes.0 & 0x10 != 0x10
            &&& o.sensitive is Some
            &&& o.public.object_attributes.0 & 0x800 == 0x800 ==> req.handles[1] != 0x4000_0007
                && duplicate_check(before, req)->Ok_0.4.algorithm != 0x0010
        }),
{
}

/// The inner wrapper of a duplication holds the hash of what is wrapped and the Name,
/// and what is wrapped, encrypted in CFB mode under the key.
pub proof fn law_the_inner_wrapper_is_hashed(
    h: u16,
    symmetric: SymDef,
    key: Seq<u8>,
    name: Seq<u8>,
    body: Seq<u8>,
)
    requires
        inner_wrapped(h, symmetric, key, name, body) is Ok,
    ensures
        symmetric.algorithm == 0x0006,
        inner_wrapped(h, symmetric, key, name, body)->Ok_0 == crypted(
            0x0043,
            key,
            Seq::new(16, |i: int| 0u8),
            sized(hash_of(h, body + name)) + body,
            Direction::Encrypt,
        ).0,
{
    assert(crate::tpm::engine::protect::zero_iv() =~= Seq::new(16, |i: int| 0u8));
}

/// The outer wrapper is made for the new parent, under its hash and its cipher, with the
/// Name. Without a new parent there is none.
pub proof fn law_the_outer_wrapper_is_for_the_parent(
    m: RngModel,
    state: TpmState,
    parent: u32,
    storage: bool,
    name: Seq<u8>,
    body: Seq<u8>,
)
    requires
        second_phase(m, state, parent, storage, name, body).0 is Ok,
    ensures
        parent == 0x4000_0007 ==> second_phase(m, state, parent, storage, name, body).0->Ok_0 == (
            body,
            Seq::<u8>::empty(),
        ),
        parent != 0x4000_0007 ==> object_named(state, parent) is Ok && ({
            let p = object_named(state, parent)->Ok_0;
            let sym = p.public.parameters.spec_symmetric();
            &&& sym is Some
            &&& storage ==> p.public.object_attributes.0 & 0x10000 == 0x10000
                && p.public.object_attributes.0 & 0x20000 == 0x20000
            &&& exists|seed: Seq<u8>|
                second_phase(m, state, parent, storage, name, body).0->Ok_0.0
                    == #[trigger] protected(p.public.name_alg, seed, sym->0.key_bits, name, body)
        }),
{
}

/// The labels under which seeds are shared: DUPLICATE, IDENTITY and SECRET, each ended
/// by a zero.
pub proof fn law_seeds_are_shared_under_their_labels()
    ensures
        crate::tpm::commands::duplication::LABEL_DUPLICATE@ == seq![
            0x44u8,
            0x55,
            0x50,
            0x4C,
            0x49,
            0x43,
            0x41,
            0x54,
            0x45,
            0x00,
        ],
        crate::tpm::commands::crypto::LABEL_IDENTITY@ == seq![
            0x49u8,
            0x44,
            0x45,
            0x4E,
            0x54,
            0x49,
            0x54,
            0x59,
            0x00,
        ],
        crate::tpm::commands::session_commands::LABEL_SECRET@ == seq![
            0x53u8,
            0x45,
            0x43,
            0x52,
            0x45,
            0x54,
            0x00,
        ],
{
    assert(crate::tpm::commands::duplication::LABEL_DUPLICATE@ =~= seq![
        0x44u8,
        0x55,
        0x50,
        0x4C,
        0x49,
        0x43,
        0x41,
        0x54,
        0x45,
        0x00,
    ]);
    assert(crate::tpm::commands::crypto::LABEL_IDENTITY@ =~= seq![
        0x49u8,
        0x44,
        0x45,
        0x4E,
        0x54,
        0x49,
        0x54,
        0x59,
        0x00,
    ]);
    assert(crate::tpm::commands::session_commands::LABEL_SECRET@ =~= seq![
        0x53u8,
        0x45,
        0x43,
        0x52,
        0x45,
        0x54,
        0x00,
    ]);
}

/// MakeCredential answers with the credential kept for the Name that was sent, and the
/// seed for the key.
pub proof fn law_make_credential_answers_with_both(
    after: TpmState,
    before: TpmState,
    req: RequestView,
    r: TpmResult<Response>,
    credential: Seq<u8>,
    name: Seq<u8>,
)
    requires
        make_credential_ran(after, before, req, r),
        req.handles.len() > 0,
        credential.len() <= 64,
        name.len() <= 68,
        req.parameters.len() == credential.len() + name.len() + 4,
        holds(req.parameters, 0, sized(credential) + sized(name)),
        r is Ok,
    ensures
        object_named(before, req.handles[0]) is Ok,
        ({
            let o = object_named(before, req.handles[0])->Ok_0;
            let made = credential_made(before.rng.model(), o, credential, name).0;
            &&& made is Ok
            &&& r->Ok_0.parameters@ == sized(made->Ok_0.0) + sized(made->Ok_0.1)
            &&& after == (TpmState { rng: after.rng, ..before })
        }),
{
    let d = req.parameters;
    lemma_holds_both(d, 0, sized(credential), sized(name));
    lemma_holds_sized(d, 0, credential, 64);
    lemma_holds_sized(d, 2 + credential.len() as int, name, 68);
}

/// Import answers with a private area under the new parent, for the Name of the public
/// area that was sent. What is fixed does not come in.
pub proof fn law_an_import_is_kept_under_its_parent(
    state: TpmState,
    req: RequestView,
    r: TpmResult<Response>,
    i: ImportInput,
)
    requires
        import_ran(state, req, r),
        alone(req.parameters, parse_import(req.parameters)) == Ok::<ImportInput, TpmRc>(i),
        supported(i.public.name_alg),
        r is Ok,
    ensures
        req.handles.len() > 0,
        object_named(state, req.handles[0]) is Ok,
        i.public.object_attributes.0 & 2 != 2,
        i.public.object_attributes.0 & 0x10 != 0x10,
        ({
            let p = object_named(state, req.handles[0])->Ok_0;
            let sym = p.public.parameters.spec_symmetric();
            &&& sym is Some
            &&& exists|v: SensitiveView|
                r->Ok_0.parameters@ == sized(
                    protected(
                        p.public.name_alg,
                        p.seed_of(),
                        sym->0.key_bits,
                        super::objects::name_over(i.public.name_alg, i.public.octets()),
                        sized(#[trigger] v.octets()),
                    ),
                )
        }),
{
}

/// An accepted ECDSA signature: both numbers are below the order, the key is a point of
/// the curve, and the sum of the base point times e / s and the key times r / s has an
/// x that is r.
pub proof fn law_an_accepted_ecdsa_signature(
    c: CurveModel,
    x: nat,
    y: nat,
    e: nat,
    r: nat,
    s: nat,
)
    ensures
        ecdsa_verifies(c, x, y, e, r, s) <==> {
            let w = inverse(s, c.n);
            let sum = added(
                c,
                multiplied(c, (e * w) % c.n, Some((c.gx, c.gy))),
                multiplied(c, (r * w) % c.n, Some((x, y))),
            );
            &&& 0 < r < c.n
            &&& 0 < s < c.n
            &&& x < c.p
            &&& y < c.p
            &&& (y * y) % c.p == (x * x * x + c.a * x + c.b) % c.p
            &&& sum is Some
            &&& (sum->0).0 % c.n == r
        },
{
}

/// ECDH answers with the point that was sent times the private number, and only for a
/// point of the curve.
pub proof fn law_ecdh_multiplies_the_point(o: ObjectView, curve_id: u16, x: Seq<u8>, y: Seq<u8>)
    requires
        ecdh_of(o, x, y) is Ok,
        o.public.parameters is Ecc,
        o.public.parameters->Ecc_curve_id == curve_id,
    ensures
        o.sensitive is Some,
        o.public.object_attributes.0 & 0x20000 == 0x20000,
        ({
            let c = curve_of(curve_id);
            let z = multiplied(
                c,
                number_of(o.sensitive->0.sensitive),
                Some((number_of(x), number_of(y))),
            );
            let zx = octets_of((z->0).0, c.size);
            let zy = octets_of((z->0).1, c.size);
            &&& on_curve(c, number_of(x), number_of(y))
            &&& z is Some
            &&& ecdh_of(o, x, y)->Ok_0 == sized(sized(zx) + sized(zy))
        }),
{
}

} // verus!
