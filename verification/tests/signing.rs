//! Attestations, signing keys and the wrapping of duplicated objects.

use swtrust::tpm::commands::attest::{attest_and_sign, obfuscated, signing_object};
use swtrust::tpm::commands::crypto::{
    check_digest_size, check_signing_key, signing_scheme, signs_a_message,
};
use swtrust::tpm::commands::duplication::{
    duplicate_label, inner_unwrap, inner_wrap, sensitive_from_body,
};
use swtrust::tpm::commands::management::clock_info;
use swtrust::tpm::config;
use swtrust::tpm::constants::{alg, curve, rc, rh, st};
use swtrust::tpm::engine::object::{Object, Slot};
use swtrust::tpm::engine::protect;
use swtrust::tpm::engine::state::TpmState;
use swtrust::tpm::error::TpmRc;
use swtrust::tpm::marshal::{Reader, Writer};
use swtrust::tpm::structures::attest::{Attest, Attested, TimeInfo};
use swtrust::tpm::structures::attributes::ObjectAttributes;
use swtrust::tpm::structures::base::{
    Tpm2bData, Tpm2bDigest, Tpm2bEccParameter, Tpm2bSensitiveData,
};
use swtrust::tpm::structures::keys::{
    PublicId, PublicParms, SensitiveComposite, TpmtPublic, TpmtSensitive,
};
use swtrust::tpm::structures::schemes::{EccPoint, Scheme, SchemeDetail, SchemeHash, SymDef};
use swtrust::tpm::structures::signature::{SignatureEcc, SignatureValue, TpmtSignature};

fn manufactured() -> TpmState {
    TpmState::manufacture(&[0x5a; 48]).unwrap()
}

fn signing_public(attrs: u32) -> TpmtPublic {
    TpmtPublic {
        object_type: alg::ECC,
        name_alg: alg::SHA256,
        object_attributes: ObjectAttributes(attrs),
        auth_policy: Tpm2bDigest::empty(),
        parameters: PublicParms::Ecc {
            symmetric: SymDef::null(),
            scheme: Scheme::hash(alg::ECDSA, alg::SHA256),
            curve_id: curve::NIST_P256,
            kdf: Scheme::null(),
        },
        unique: PublicId::Ecc(EccPoint::default()),
    }
}

#[test]
fn any_signing_key_may_attest_and_nothing_else_may() {
    let mut state = manufactured();
    let plain = Object::new(
        signing_public(ObjectAttributes::SIGN_ENCRYPT),
        None,
        rh::OWNER,
        &rh::OWNER.to_be_bytes(),
        true,
    );
    let handle = state.objects.insert(Slot::Object(Box::new(plain))).unwrap();
    // Only the sign attribute is asked for: a key that is not restricted
    // attests too.
    assert!(signing_object(&state, handle).is_ok());

    let restricted = Object::new(
        signing_public(ObjectAttributes::SIGN_ENCRYPT | ObjectAttributes::RESTRICTED),
        None,
        rh::OWNER,
        &rh::OWNER.to_be_bytes(),
        true,
    );
    let handle = state
        .objects
        .insert(Slot::Object(Box::new(restricted)))
        .unwrap();
    assert!(signing_object(&state, handle).is_ok());

    // A key without the sign attribute cannot attest.
    let decrypting = Object::new(
        signing_public(ObjectAttributes::DECRYPT),
        None,
        rh::OWNER,
        &rh::OWNER.to_be_bytes(),
        true,
    );
    let handle = state
        .objects
        .insert(Slot::Object(Box::new(decrypting)))
        .unwrap();
    assert_eq!(signing_object(&state, handle).unwrap_err(), TpmRc(rc::KEY));
}

#[test]
fn an_unsigned_attestation_still_carries_the_magic_and_the_values() {
    let mut state = manufactured();
    let (info, signature) = attest_and_sign(
        &mut state,
        rh::NULL,
        1,
        &Scheme::null(),
        &Tpm2bData::from_slice(b"qualifier").unwrap(),
        Attested::Time {
            time: TimeInfo::default(),
            firmware_version: 1,
        },
        2,
    )
    .unwrap();
    assert!(signature.is_null());
    let attest = Attest::from_bytes(info.as_slice()).unwrap();
    assert_eq!(attest.magic, st::GENERATED_VALUE);
    assert_eq!(attest.extra_data.as_slice(), b"qualifier");
    assert!(attest.qualified_signer.is_empty());
}

#[test]
fn a_key_outside_the_two_hierarchies_has_its_counters_hidden() {
    let mut state = manufactured();
    state.on_startup_clear(0).unwrap();
    let plain = clock_info(&state);

    let (hidden, firmware) = obfuscated(&state, rh::NULL, &rh::NULL.to_be_bytes()).unwrap();
    assert!(
        hidden.reset_count != plain.reset_count || hidden.restart_count != plain.restart_count,
        "the counters came through unchanged"
    );
    assert_ne!(
        firmware,
        config::FIRMWARE_VERSION_1 as u64,
        "the version came through unchanged"
    );

    // A different qualified name gives a different value, which is what stops
    // one attestation being tied to another.
    let (other, _) = obfuscated(&state, rh::NULL, b"another name").unwrap();
    assert_ne!(
        (hidden.reset_count, hidden.restart_count),
        (other.reset_count, other.restart_count),
        "two keys were hidden the same way"
    );
}

/// A keyed hash object with the given scheme and attributes.
fn keyed_hash(scheme: Scheme, attributes: u32) -> Object {
    let public = TpmtPublic {
        object_type: alg::KEYEDHASH,
        name_alg: alg::SHA256,
        object_attributes: ObjectAttributes(attributes),
        auth_policy: Tpm2bDigest::empty(),
        parameters: PublicParms::KeyedHash { scheme },
        unique: PublicId::KeyedHash(Tpm2bDigest::empty()),
    };
    let sensitive = TpmtSensitive {
        sensitive_type: alg::KEYEDHASH,
        auth_value: Tpm2bDigest::empty(),
        seed_value: Tpm2bDigest::empty(),
        sensitive: SensitiveComposite::Bits(Tpm2bSensitiveData::new(vec![7u8; 32]).unwrap()),
    };
    Object::new(public, Some(sensitive), rh::NULL, &[], false)
}

#[test]
fn only_an_hmac_keyed_hash_key_is_a_signing_key() {
    let hmac = Scheme::hash(alg::HMAC, alg::SHA256);
    let xor = Scheme::hash(alg::XOR, alg::SHA256);
    let sign = ObjectAttributes::SIGN_ENCRYPT;

    assert!(signs_a_message(&keyed_hash(hmac, sign)));
    check_signing_key(&keyed_hash(hmac, sign)).unwrap();

    // An XOR obfuscation key is not a signing key even with the sign attribute.
    let xor_key = keyed_hash(xor, sign);
    assert!(!signs_a_message(&xor_key));
    assert_eq!(check_signing_key(&xor_key).unwrap_err(), TpmRc(rc::KEY));

    // The sign attribute is needed.
    assert_eq!(
        check_signing_key(&keyed_hash(hmac, 0)).unwrap_err(),
        TpmRc(rc::KEY)
    );

    // A key reserved for X.509 certificates signs nothing else.
    assert_eq!(
        check_signing_key(&keyed_hash(hmac, sign | ObjectAttributes::X509_SIGN)).unwrap_err(),
        TpmRc(rc::ATTRIBUTES)
    );
}

#[test]
fn a_digest_has_to_be_the_size_of_the_signature_hash() {
    let signature = TpmtSignature {
        sig_alg: alg::ECDSA,
        signature: SignatureValue::Ecc(SignatureEcc {
            hash: alg::SHA256,
            signature_r: Tpm2bEccParameter::new(vec![1u8; 32]).unwrap(),
            signature_s: Tpm2bEccParameter::new(vec![2u8; 32]).unwrap(),
        }),
    };
    check_digest_size(&[0u8; 32], &signature).unwrap();
    // A short one cannot be truncated into a signature the TPM vouches for.
    assert_eq!(
        check_digest_size(&[0u8; 20], &signature).unwrap_err(),
        TpmRc(rc::SIZE)
    );
}

#[test]
fn the_object_scheme_wins_when_it_has_one() {
    let mut object = Object::new(
        signing_public(ObjectAttributes::SIGN_ENCRYPT),
        None,
        rh::NULL,
        &rh::NULL.to_be_bytes(),
        true,
    );

    // A null request takes the object's scheme.
    let s = signing_scheme(&object, &Scheme::null()).unwrap();
    assert_eq!(s.scheme, alg::ECDSA);
    // A matching request is accepted.
    assert!(signing_scheme(&object, &Scheme::hash(alg::ECDSA, alg::SHA256)).is_ok());
    // A different one is refused.
    assert_eq!(
        signing_scheme(&object, &Scheme::hash(alg::ECSCHNORR, alg::SHA256))
            .unwrap_err()
            .0
            & 0x03F,
        rc::SCHEME & 0x03F
    );

    // With a null object scheme the caller must supply one.
    object.public.parameters = PublicParms::Ecc {
        symmetric: SymDef::null(),
        scheme: Scheme::null(),
        curve_id: curve::NIST_P256,
        kdf: Scheme::null(),
    };
    assert!(signing_scheme(&object, &Scheme::null()).is_err());
    let s = signing_scheme(&object, &Scheme::hash(alg::ECDSA, alg::SHA384)).unwrap();
    assert_eq!(
        s.detail,
        SchemeDetail::Hash(SchemeHash {
            hash_alg: alg::SHA384
        })
    );
}

#[test]
fn the_inner_wrap_round_trips_and_detects_tampering() {
    let symmetric = SymDef::new(alg::AES, 128, alg::CFB);
    let key = [7u8; 16];
    let name = [3u8; 34];
    let sensitive = vec![0x5au8; 64];

    let wrapped = inner_wrap(alg::SHA256, &symmetric, &key, &name, &sensitive).unwrap();
    assert_eq!(
        inner_unwrap(alg::SHA256, &symmetric, &key, &name, &wrapped).unwrap(),
        sensitive
    );

    // A different Name fails the check.
    assert_eq!(
        inner_unwrap(alg::SHA256, &symmetric, &key, &[4u8; 34], &wrapped)
            .unwrap_err()
            .0
            & 0x03F,
        rc::INTEGRITY & 0x03F
    );
    // A different key fails too.
    assert!(inner_unwrap(alg::SHA256, &symmetric, &[8u8; 16], &name, &wrapped).is_err());
    // Tampering fails.
    let mut bad = wrapped;
    bad[10] ^= 0x01;
    assert!(inner_unwrap(alg::SHA256, &symmetric, &key, &name, &bad).is_err());
}

#[test]
fn the_duplicate_label_is_terminated() {
    assert_eq!(duplicate_label(), b"DUPLICATE\0");
    assert_eq!(*duplicate_label().last().unwrap(), 0);
}

#[test]
fn phase_one_always_produces_a_sized_sensitive() {
    let raw = vec![0x11u8; 40];
    let mut w = Writer::new();
    w.sized16(&raw);
    let body = w.finish().unwrap();

    let mut r = Reader::new(&body);
    assert_eq!(r.u16().unwrap() as usize, raw.len());
    assert_eq!(r.take(raw.len()).unwrap(), &raw[..]);
    assert!(r.is_empty(), "the body carries more than the sensitive area");
    assert_eq!(sensitive_from_body(&body).unwrap(), raw);
}

#[test]
fn an_inner_wrapped_body_keeps_its_own_length_through_the_outer_phase() {
    let seed = vec![0x5au8; 32];
    let symmetric = SymDef::new(alg::AES, 128, alg::CFB);
    let name = b"a name".to_vec();
    let body = vec![0xa5u8; 70];

    let wrapped =
        protect::wrap_private_body(alg::SHA256, &seed, &symmetric, &name, &body).unwrap();
    let back =
        protect::unwrap_private_body(alg::SHA256, &seed, &symmetric, &name, &wrapped).unwrap();
    assert_eq!(back, body, "the body did not come back as it went in");

    // The ordinary form adds the length of the sensitive area, so the two are
    // not interchangeable and the blobs differ.
    let ordinary = protect::wrap_private(alg::SHA256, &seed, &symmetric, &name, &body).unwrap();
    assert_ne!(
        ordinary.len(),
        wrapped.len(),
        "the two wrappings produced the same shape"
    );
    assert_eq!(ordinary.len(), wrapped.len() + 2);
}
