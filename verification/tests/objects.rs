//! How objects are made: Primary Objects, ordinary ones and derived ones.

use swtrust::tpm::commands::creation::{
    create_sensitive, derived_sensitive, label_and_context, primary_context, DerivedOctets,
    LABEL_PRIMARY,
};
use swtrust::tpm::commands::object::{derivation_parent_of, DerivationParent};
use swtrust::tpm::constants::{alg, curve, rc, rh};
use swtrust::tpm::crypto::bn::BigNum;
use swtrust::tpm::crypto::ecc::{private_key_extra_bits, Curve};
use swtrust::tpm::crypto::hash::digest;
use swtrust::tpm::crypto::hmac::kdfa_bytes;
use swtrust::tpm::crypto::rand::{Drbg, Rng, SeededRng};
use swtrust::tpm::engine::object::Object;
use swtrust::tpm::error::{TpmRc, TpmResult};
use swtrust::tpm::structures::attributes::ObjectAttributes;
use swtrust::tpm::structures::base::{
    Tpm2bDigest, Tpm2bEccParameter, Tpm2bLabel, Tpm2bSensitiveData,
};
use swtrust::tpm::structures::keys::{
    Derive, PublicId, PublicParms, SensitiveComposite, Tpm2bSensitiveCreate, TpmtPublic,
    TpmtSensitive,
};
use swtrust::tpm::structures::schemes::{EccPoint, Scheme, SchemeDetail, SchemeXor, SymDef};

/// The digest of several pieces, one after the other.
fn digest_parts(alg: u16, parts: &[&[u8]]) -> TpmResult<Vec<u8>> {
    digest(alg, &parts.concat())
}

fn ecc_template(attrs: u32) -> TpmtPublic {
    TpmtPublic {
        object_type: alg::ECC,
        name_alg: alg::SHA256,
        object_attributes: ObjectAttributes(attrs),
        auth_policy: Tpm2bDigest::empty(),
        parameters: PublicParms::Ecc {
            symmetric: SymDef::null(),
            scheme: Scheme::hash(alg::ECDSA, alg::SHA256),
            curve_id: curve::NIST_P256,
            kdf: Scheme::null(),
        },
        unique: PublicId::Ecc(EccPoint::default()),
    }
}

fn storage_template() -> TpmtPublic {
    TpmtPublic {
        object_type: alg::ECC,
        name_alg: alg::SHA256,
        object_attributes: ObjectAttributes(
            ObjectAttributes::FIXED_TPM
                | ObjectAttributes::FIXED_PARENT
                | ObjectAttributes::SENSITIVE_DATA_ORIGIN
                | ObjectAttributes::USER_WITH_AUTH
                | ObjectAttributes::RESTRICTED
                | ObjectAttributes::DECRYPT,
        ),
        auth_policy: Tpm2bDigest::empty(),
        parameters: PublicParms::Ecc {
            symmetric: SymDef::new(alg::AES, 128, alg::CFB),
            scheme: Scheme::null(),
            curve_id: curve::NIST_P256,
            kdf: Scheme::null(),
        },
        unique: PublicId::Ecc(EccPoint::default()),
    }
}

#[test]
fn primary_derivation_is_repeatable_and_template_dependent() {
    let seed = [0x42u8; 32];
    let template = ecc_template(ObjectAttributes::SIGN_ENCRYPT);
    let empty = Tpm2bSensitiveCreate::default();
    let context = primary_context(&template, &empty).unwrap();

    let mut a = SeededRng::new(alg::SHA256, &seed, &LABEL_PRIMARY, &context).unwrap();
    let mut b = SeededRng::new(alg::SHA256, &seed, &LABEL_PRIMARY, &context).unwrap();
    let (sa, ua) = create_sensitive(&mut a, &template, &empty).unwrap();
    let (sb, ub) = create_sensitive(&mut b, &template, &empty).unwrap();
    assert_eq!(sa, sb);
    assert_eq!(ua, ub);

    // A different template gives a different key.
    let other = ecc_template(ObjectAttributes::DECRYPT);
    let other_context = primary_context(&other, &empty).unwrap();
    assert_ne!(context, other_context);
    let mut c = SeededRng::new(alg::SHA256, &seed, &LABEL_PRIMARY, &other_context).unwrap();
    let (sc, _) = create_sensitive(&mut c, &other, &empty).unwrap();
    assert_ne!(sa, sc);

    let mut with_unique = ecc_template(ObjectAttributes::SIGN_ENCRYPT);
    with_unique.unique = PublicId::Ecc(EccPoint {
        x: Tpm2bEccParameter::new(vec![0u8; 32]).unwrap(),
        y: Tpm2bEccParameter::new(vec![0u8; 32]).unwrap(),
    });
    let unique_context = primary_context(&with_unique, &empty).unwrap();
    assert_ne!(
        context, unique_context,
        "the unique field was left out of the derivation"
    );
}

#[test]
fn a_storage_key_gets_a_seed_value() {
    let mut rng = Drbg::new(&[1u8; 48], b"t").unwrap();
    let (sensitive, _) =
        create_sensitive(&mut rng, &storage_template(), &Tpm2bSensitiveCreate::default())
            .unwrap();
    assert_eq!(sensitive.seed_value.len(), 32);

    // A plain signing key does not need one.
    let (sensitive, _) = create_sensitive(
        &mut rng,
        &ecc_template(ObjectAttributes::SIGN_ENCRYPT),
        &Tpm2bSensitiveCreate::default(),
    )
    .unwrap();
    assert!(sensitive.seed_value.is_empty());
}

#[test]
fn a_sealed_data_object_takes_its_data_from_the_caller() {
    let mut rng = Drbg::new(&[2u8; 48], b"t").unwrap();
    let template = TpmtPublic {
        object_type: alg::KEYEDHASH,
        name_alg: alg::SHA256,
        object_attributes: ObjectAttributes(ObjectAttributes::USER_WITH_AUTH),
        auth_policy: Tpm2bDigest::empty(),
        parameters: PublicParms::KeyedHash {
            scheme: Scheme::null(),
        },
        unique: PublicId::KeyedHash(Tpm2bDigest::empty()),
    };
    let mut supplied = Tpm2bSensitiveCreate::default();
    supplied.sensitive.data = Tpm2bSensitiveData::from_slice(b"the secret").unwrap();
    let (sensitive, unique) = create_sensitive(&mut rng, &template, &supplied).unwrap();
    assert_eq!(sensitive.sensitive.as_slice(), b"the secret");
    // The unique value binds the seed to the data.
    if let PublicId::KeyedHash(d) = unique {
        let expected = digest_parts(
            alg::SHA256,
            &[sensitive.seed_value.as_slice(), b"the secret"],
        )
        .unwrap();
        assert_eq!(d.as_slice(), &expected[..]);
    } else {
        panic!("wrong identifier");
    }
}

#[test]
fn sensitive_data_origin_and_supplied_data_are_exclusive() {
    let mut rng = Drbg::new(&[3u8; 48], b"t").unwrap();
    let template = TpmtPublic {
        object_type: alg::KEYEDHASH,
        name_alg: alg::SHA256,
        object_attributes: ObjectAttributes(ObjectAttributes::SENSITIVE_DATA_ORIGIN),
        auth_policy: Tpm2bDigest::empty(),
        parameters: PublicParms::KeyedHash {
            scheme: Scheme::null(),
        },
        unique: PublicId::KeyedHash(Tpm2bDigest::empty()),
    };
    let mut supplied = Tpm2bSensitiveCreate::default();
    supplied.sensitive.data = Tpm2bSensitiveData::from_slice(b"x").unwrap();
    assert_eq!(
        create_sensitive(&mut rng, &template, &supplied)
            .unwrap_err()
            .0
            & 0x03F,
        rc::ATTRIBUTES & 0x03F
    );
    // With no data supplied the TPM generates it.
    let (sensitive, _) =
        create_sensitive(&mut rng, &template, &Tpm2bSensitiveCreate::default()).unwrap();
    assert_eq!(sensitive.sensitive.as_slice().len(), 32);
}

#[test]
fn an_authorization_value_longer_than_the_digest_is_refused() {
    let mut rng = Drbg::new(&[4u8; 48], b"t").unwrap();
    let mut supplied = Tpm2bSensitiveCreate::default();
    supplied.sensitive.user_auth = Tpm2bDigest::from_slice(&[0u8; 33]).unwrap();
    assert_eq!(
        create_sensitive(
            &mut rng,
            &ecc_template(ObjectAttributes::SIGN_ENCRYPT),
            &supplied
        )
        .unwrap_err()
        .0
            & 0x03F,
        rc::SIZE & 0x03F
    );
}

/// A loaded keyed hash Derivation Parent with the given hashes and secret.
fn derivation_parent_object(name_alg: u16, scheme_hash: u16, secret: &[u8]) -> Object {

    let public = TpmtPublic {
        object_type: alg::KEYEDHASH,
        name_alg,
        object_attributes: ObjectAttributes(
            ObjectAttributes::RESTRICTED | ObjectAttributes::DECRYPT,
        ),
        auth_policy: Tpm2bDigest::empty(),
        parameters: PublicParms::KeyedHash {
            scheme: Scheme {
                scheme: alg::XOR,
                detail: SchemeDetail::Xor(SchemeXor {
                    hash_alg: scheme_hash,
                    kdf: alg::KDF1_SP800_108,
                }),
            },
        },
        unique: PublicId::KeyedHash(Tpm2bDigest::empty()),
    };
    let sensitive = TpmtSensitive {
        sensitive_type: alg::KEYEDHASH,
        auth_value: Tpm2bDigest::empty(),
        seed_value: Tpm2bDigest::empty(),
        sensitive: SensitiveComposite::Bits(Tpm2bSensitiveData::new(secret.to_vec()).unwrap()),
    };
    Object::new(public, Some(sensitive), rh::OWNER, &[], true)
}

#[test]
fn the_derivation_hash_is_the_parent_name_algorithm() {
    let secret = b"a derivation parent secret";

    let a = derivation_parent_of(&derivation_parent_object(alg::SHA256, alg::SHA256, secret))
        .unwrap();
    let b = derivation_parent_of(&derivation_parent_object(alg::SHA256, alg::SHA384, secret))
        .unwrap();
    let c = derivation_parent_of(&derivation_parent_object(alg::SHA384, alg::SHA256, secret))
        .unwrap();

    assert_eq!(a.hash_alg, alg::SHA256);
    assert_eq!(
        b.hash_alg,
        alg::SHA256,
        "the scheme hash was taken for the KDF hash"
    );
    assert_eq!(c.hash_alg, alg::SHA384, "the nameAlg was not taken");

    // The octets follow the hash, so two parents that share a nameAlg and a
    // secret derive the same stream whatever their schemes say.
    let stream = |p: &DerivationParent| {
        let mut o = DerivedOctets::new(p.hash_alg, &p.sensitive, b"label", b"context").unwrap();
        o.bytes(64).unwrap()
    };
    assert_eq!(stream(&a), stream(&b), "the scheme reached the KDF");
    assert_ne!(stream(&a), stream(&c));
}

#[test]
fn the_derived_octets_are_one_kdfa_call_read_from_the_front() {
    let secret = b"a derivation parent secret";
    let expected = kdfa_bytes(
        alg::SHA256,
        secret,
        b"label",
        b"context",
        &[],
        8192,
    )
    .unwrap();
    assert_eq!(expected.len(), 1024, "the derivation gives 1024 octets");

    let mut octets = DerivedOctets::new(alg::SHA256, secret, b"label", b"context").unwrap();
    // Read in uneven pieces: nothing may be skipped between them.
    let mut got = octets.bytes(7).unwrap();
    got.extend(octets.bytes(40).unwrap());
    got.extend(octets.bytes(32).unwrap());
    assert_eq!(got, expected[..79]);

    // The buffer ends after 1024 octets rather than generating more.
    let mut octets = DerivedOctets::new(alg::SHA256, secret, b"label", b"context").unwrap();
    assert!(octets.bytes(1024).is_ok());
    assert_eq!(octets.bytes(1).unwrap_err(), TpmRc(rc::NO_RESULT));
}

#[test]
fn a_derived_symmetric_key_matches_the_clause_25_4_1_example() {
    let secret = b"a derivation parent secret";
    let stream =
        kdfa_bytes(alg::SHA256, secret, b"l", b"c", &[], 8192)
            .unwrap();

    let template = TpmtPublic {
        object_type: alg::SYMCIPHER,
        name_alg: alg::SHA256,
        object_attributes: ObjectAttributes(ObjectAttributes::DECRYPT),
        auth_policy: Tpm2bDigest::empty(),
        parameters: PublicParms::SymCipher {
            sym: SymDef::new(alg::AES, 128, alg::CFB),
        },
        unique: PublicId::Sym(Tpm2bDigest::empty()),
    };

    let mut octets = DerivedOctets::new(alg::SHA256, secret, b"l", b"c").unwrap();
    let (sensitive, unique) =
        derived_sensitive(&mut octets, &template, &Tpm2bSensitiveCreate::default()).unwrap();

    let SensitiveComposite::Sym(key) = &sensitive.sensitive else {
        panic!("a symmetric object must hold a symmetric key");
    };
    assert_eq!(key.as_slice(), &stream[..16], "the key is not the first 16");
    assert_eq!(
        sensitive.seed_value.as_slice(),
        &stream[16..48],
        "the seedValue does not follow the key"
    );

    let PublicId::Sym(digest) = &unique else {
        panic!("a symmetric object names a digest");
    };
    assert_eq!(
        digest.as_slice(),
        digest_parts(
            alg::SHA256,
            &[&stream[16..48], &stream[..16]]
        )
        .unwrap()
    );
}

#[test]
fn a_derived_ecc_key_takes_the_octets_clause_25_4_1_names() {
    let secret = b"a derivation parent secret";
    let stream =
        kdfa_bytes(alg::SHA256, secret, b"l", b"c", &[], 8192)
            .unwrap();

    let template = TpmtPublic {
        object_type: alg::ECC,
        name_alg: alg::SHA256,
        object_attributes: ObjectAttributes(ObjectAttributes::SIGN_ENCRYPT),
        auth_policy: Tpm2bDigest::empty(),
        parameters: PublicParms::Ecc {
            symmetric: SymDef::null(),
            scheme: Scheme::hash(alg::ECDSA, alg::SHA256),
            curve_id: curve::NIST_P256,
            kdf: Scheme::null(),
        },
        unique: PublicId::Ecc(EccPoint::default()),
    };

    let mut octets = DerivedOctets::new(alg::SHA256, secret, b"l", b"c").unwrap();
    let (sensitive, _unique) =
        derived_sensitive(&mut octets, &template, &Tpm2bSensitiveCreate::default()).unwrap();

    // The scalar is the first 40 octets reduced modulo one less than the
    // order, with one added.
    let curve = Curve::new(curve::NIST_P256).unwrap();
    let expected = BigNum::from_bytes(&stream[..40])
        .modulo(&curve.order().sub_word(1))
        .add_word(1);
    let SensitiveComposite::Ecc(private) = &sensitive.sensitive else {
        panic!("an ECC object holds a scalar");
    };
    assert_eq!(private.as_slice(), expected.to_bytes_padded(32));

    assert!(
        sensitive.seed_value.is_empty(),
        "a signing key is not a Storage Key, so it has no seedValue"
    );
}

#[test]
fn an_extra_random_bits_scalar_takes_the_bits_the_order_needs() {
    for (curve_id, octets, order_bits) in [
        (curve::NIST_P256, 40usize, 256usize),
        (curve::NIST_P384, 56, 384),
        (curve::NIST_P521, 74, 521),
    ] {
        let curve = Curve::new(curve_id).unwrap();
        assert_eq!(curve.order().bits(), order_bits);

        // A stream of set bits shows the masking, and what follows the
        // scalar shows how many octets were taken.
        let stream = vec![0xffu8; 256];
        let mut rng = DerivedOctets {
            buffer: stream.clone(),
            offset: 0,
        };
        let got = private_key_extra_bits(&curve, &mut rng).unwrap();
        assert_eq!(rng.offset, octets, "the wrong number of octets was taken");

        let wanted = order_bits + 64;
        let mut bytes = stream[..octets].to_vec();
        let spare = octets * 8 - wanted;
        if spare > 0 {
            bytes[0] &= 0xffu8 >> spare;
        }
        let expected = BigNum::from_bytes(&bytes)
        .modulo(&curve.order().sub_word(1))
        .add_word(1);
        assert_eq!(
            got.to_bytes(),
            expected.to_bytes(),
            "the candidate was not reduced to {wanted} bits"
        );
    }
}

#[test]
fn a_template_that_gives_both_values_ignores_the_sensitive_area() {
    let mut template = ecc_template(ObjectAttributes::SIGN_ENCRYPT);
    template.unique = PublicId::Derive(Derive {
        label: Tpm2bLabel::new(b"label".to_vec()).unwrap(),
        context: Tpm2bLabel::new(b"context".to_vec()).unwrap(),
    });

    let mut junk = Tpm2bSensitiveCreate::default();
    junk.sensitive.data = Tpm2bSensitiveData::new(vec![0xff; 3]).unwrap();
    let (label, context) = label_and_context(&template, &junk).unwrap();
    assert_eq!(label, b"label");
    assert_eq!(context, b"context");

    // With one of them missing the buffer is read after all, and a buffer
    // that is not a TPMS_DERIVE is then an error rather than a silent zero.
    let mut half = template.clone();
    half.unique = PublicId::Derive(Derive {
        label: Tpm2bLabel::new(b"label".to_vec()).unwrap(),
        context: Tpm2bLabel::empty(),
    });
    assert!(label_and_context(&half, &junk).is_err());
}
