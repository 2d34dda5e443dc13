//! Saved contexts.

use swtrust::tpm::commands::context::{
    context_hash, is_saved_object_handle, marshal_object, marshal_sequence, marshal_session,
    open_context, seal_context, unmarshal_object, unmarshal_sequence, unmarshal_session,
};
use swtrust::tpm::config;
use swtrust::tpm::constants::{alg, cc, curve, hc, rc, rh, saved, se};
use swtrust::tpm::engine::object::{Object, Sequence, SequenceKind};
use swtrust::tpm::engine::session::Session;
use swtrust::tpm::engine::state::TpmState;
use swtrust::tpm::error::TpmRc;
use swtrust::tpm::structures::attributes::ObjectAttributes;
use swtrust::tpm::structures::base::Tpm2bDigest;
use swtrust::tpm::structures::context::Context;
use swtrust::tpm::structures::keys::{PublicId, PublicParms, TpmtPublic};
use swtrust::tpm::structures::schemes::{EccPoint, Scheme, SymDef};

fn manufactured() -> TpmState {
    TpmState::manufacture(&[0x5a; 48]).unwrap()
}

fn ecc_public(scheme: Scheme) -> TpmtPublic {
    TpmtPublic {
        object_type: alg::ECC,
        name_alg: alg::SHA256,
        object_attributes: ObjectAttributes(
            ObjectAttributes::SIGN_ENCRYPT | ObjectAttributes::RESTRICTED,
        ),
        auth_policy: Tpm2bDigest::empty(),
        parameters: PublicParms::Ecc {
            symmetric: SymDef::null(),
            scheme,
            curve_id: curve::NIST_P256,
            kdf: Scheme::null(),
        },
        unique: PublicId::Ecc(EccPoint::default()),
    }
}

#[test]
fn an_object_context_an_older_build_saved_is_refused() {
    // A restricted signing key needs a scheme. The integrity check on a context
    // says the blob is this TPM's, not that saving it was right.
    let public = ecc_public(Scheme::null());
    let object = Object::new(public, None, rh::OWNER, &rh::OWNER.to_be_bytes(), true);
    let body = marshal_object(&object).unwrap();
    assert_eq!(
        unmarshal_object(&body, false).unwrap_err(),
        TpmRc(rc::SCHEME)
    );
}

#[test]
fn an_object_context_round_trips() {
    let public = ecc_public(Scheme::hash(alg::ECDSA, alg::SHA256));
    let object = Object::new(public, None, rh::OWNER, &rh::OWNER.to_be_bytes(), true);
    let body = marshal_object(&object).unwrap();
    let back = unmarshal_object(&body, false).unwrap();
    assert_eq!(back.public, object.public);
    assert_eq!(back.hierarchy, rh::OWNER);
    assert_eq!(back.name, object.name);
    assert_eq!(back.qualified_name, object.qualified_name);
    // A context that stops short is refused.
    assert!(unmarshal_object(&body[..body.len() - 1], false).is_err());
}

#[test]
fn a_session_context_round_trips() {
    let session = Session::new(
        hc::HMAC_SESSION_FIRST,
        se::HMAC,
        alg::SHA256,
        vec![1u8; 32],
        vec![2u8; 32],
        vec![3u8; 32],
        rh::NULL,
        Vec::new(),
        SymDef::new(alg::AES, 128, alg::CFB),
    )
    .unwrap();
    let body = marshal_session(&session).unwrap();
    let back = unmarshal_session(&body).unwrap();
    assert_eq!(back.handle, session.handle);
    assert_eq!(back.auth_hash, session.auth_hash);
    assert_eq!(back.nonce_tpm, session.nonce_tpm);
    assert_eq!(back.session_key, session.session_key);
    assert_eq!(back.symmetric, session.symmetric);
}

#[test]
fn a_sequence_context_round_trips() {
    for kind in [
        SequenceKind::Hash {
            hash_alg: alg::SHA256,
        },
        SequenceKind::Hmac {
            hash_alg: alg::SHA384,
            key: vec![9u8; 48],
        },
        SequenceKind::Event,
    ] {
        let s = Sequence {
            kind: kind.clone(),
            auth: b"auth".to_vec(),
            buffer: b"buffered data".to_vec(),
        };
        let back = unmarshal_sequence(&marshal_sequence(&s).unwrap()).unwrap();
        assert_eq!(back.kind, kind);
        assert_eq!(back.auth, b"auth");
        assert_eq!(back.buffer, b"buffered data");
    }
}

#[test]
fn a_context_is_protected_and_tamper_evident() {
    let state = manufactured();
    let body = b"the context body".to_vec();
    let blob = seal_context(&state, rh::OWNER, 1, saved::TRANSIENT_OBJECT, &body).unwrap();

    let context = Context {
        sequence: 1,
        saved_handle: saved::TRANSIENT_OBJECT,
        hierarchy: rh::OWNER,
        context_blob: blob.clone(),
    };
    assert_eq!(open_context(&state, &context).unwrap(), body);

    // A different sequence number, handle or hierarchy fails.
    let mut bad = Context {
        sequence: 2,
        ..context.clone()
    };
    assert!(open_context(&state, &bad).is_err());
    bad = Context {
        saved_handle: saved::SEQUENCE_OBJECT,
        ..context.clone()
    };
    assert!(open_context(&state, &bad).is_err());
    bad = Context {
        hierarchy: rh::PLATFORM,
        ..context.clone()
    };
    assert!(open_context(&state, &bad).is_err());
}

#[test]
fn a_context_does_not_survive_a_seed_change() {
    let mut state = manufactured();
    let body = b"body".to_vec();
    let blob = seal_context(&state, rh::OWNER, 1, saved::TRANSIENT_OBJECT, &body).unwrap();
    let context = Context {
        sequence: 1,
        saved_handle: saved::TRANSIENT_OBJECT,
        hierarchy: rh::OWNER,
        context_blob: blob,
    };
    assert!(open_context(&state, &context).is_ok());
    state.on_clear().unwrap();
    assert_eq!(
        open_context(&state, &context).unwrap_err().0 & 0x03F,
        rc::INTEGRITY & 0x03F
    );
}

#[test]
fn saved_handle_values_are_recognised() {
    assert!(is_saved_object_handle(saved::TRANSIENT_OBJECT));
    assert!(is_saved_object_handle(saved::SEQUENCE_OBJECT));
    assert!(is_saved_object_handle(saved::TRANSIENT_STCLEAR));
    assert!(!is_saved_object_handle(hc::HMAC_SESSION_FIRST));
    assert_eq!(context_hash(), config::CONTEXT_INTEGRITY_HASH_ALG);
}

#[test]
fn a_saved_session_keeps_every_policy_assertion() {
    let mut session = Session::new(
        hc::POLICY_SESSION_FIRST,
        se::POLICY,
        alg::SHA256,
        vec![1u8; 32],
        vec![2u8; 32],
        vec![3u8; 32],
        rh::NULL,
        Vec::new(),
        SymDef::null(),
    )
    .unwrap();
    session.start_time = 1234;
    session.time_epoch = 7;
    session.policy.digest = vec![9u8; 32];
    session.policy.command_code = Some(cc::Unseal);
    session.policy.cp_hash = Some(vec![4u8; 32]);
    session.policy.name_hash = Some(vec![5u8; 32]);
    session.policy.locality = Some(0b0000_0100);
    session.policy.pcr_update_counter = Some(11);
    session.policy.auth_value_needed = true;
    session.policy.password_needed = true;
    session.policy.nv_written = Some(true);
    session.policy.template_hash = Some(vec![6u8; 32]);
    session.policy.parameters_hash = Some(vec![7u8; 32]);
    session.policy.physical_presence_required = true;
    session.policy.expiration = Some(5000);
    session.policy.timeout_nonce = vec![8u8; 16];

    // The whole session comes back, so a reloaded one carries every restriction
    // it had.
    let body = marshal_session(&session).unwrap();
    let back = unmarshal_session(&body).unwrap();
    assert_eq!(back.policy, session.policy);
    assert_eq!(back.start_time, session.start_time);
    assert_eq!(back.time_epoch, session.time_epoch);
}
