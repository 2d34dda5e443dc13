//! What commands agree on, on concrete values.

use swtrust::tpm::commands::capability::build_capability;
use swtrust::tpm::commands::execute::run;
use swtrust::tpm::constants::{alg, cap, cc, curve, eo, hc, pt, rc, rh, se, st, su};
use swtrust::tpm::engine::object::{Object, Slot};
use swtrust::tpm::engine::session::Session;
use swtrust::tpm::engine::state::TpmState;
use swtrust::tpm::error::TpmRc;
use swtrust::tpm::structures::attributes::{NvAttributes, ObjectAttributes};
use swtrust::tpm::structures::base::{Tpm2bDigest, Tpm2bSymKey};
use swtrust::tpm::structures::capability::Capabilities;
use swtrust::tpm::structures::keys::{
    PublicId, PublicParms, SensitiveComposite, TpmtPublic, TpmtSensitive,
};
use swtrust::tpm::structures::schemes::SymDef;

fn sized(v: &[u8]) -> Vec<u8> {
    let mut out = (v.len() as u16).to_be_bytes().to_vec();
    out.extend_from_slice(v);
    out
}

fn word(v: &[u8], at: usize) -> u32 {
    u32::from_be_bytes([v[at], v[at + 1], v[at + 2], v[at + 3]])
}

/// The sized buffer at `at`, and where the next one starts.
fn buffer(v: &[u8], at: usize) -> (Vec<u8>, usize) {
    let n = u16::from_be_bytes([v[at], v[at + 1]]) as usize;
    (v[at + 2..at + 2 + n].to_vec(), at + 2 + n)
}

/// Run a command whose first `auths` handles have the empty password. The answer
/// is the response code and what follows the header.
fn turn(
    state: &mut TpmState,
    code: u32,
    handles: &[u32],
    auths: usize,
    parameters: &[u8],
) -> (u32, Vec<u8>) {
    let mut body = Vec::new();
    for h in handles {
        body.extend_from_slice(&h.to_be_bytes());
    }
    if auths > 0 {
        let mut area = Vec::new();
        for _ in 0..auths {
            area.extend_from_slice(&rh::RS_PW.to_be_bytes());
            area.extend_from_slice(&[0, 0, 1, 0, 0]);
        }
        body.extend_from_slice(&(area.len() as u32).to_be_bytes());
        body.extend_from_slice(&area);
    }
    body.extend_from_slice(parameters);
    let tag = if auths > 0 { st::SESSIONS } else { st::NO_SESSIONS };
    let mut command = tag.to_be_bytes().to_vec();
    command.extend_from_slice(&(10 + body.len() as u32).to_be_bytes());
    command.extend_from_slice(&code.to_be_bytes());
    command.extend_from_slice(&body);
    let response = run(state, 0, &command);
    (word(&response, 6), response[10..].to_vec())
}

fn started() -> TpmState {
    let mut state = TpmState::manufacture(&[0x5a; 48]).unwrap();
    let (code, _) = turn(&mut state, cc::Startup, &[], 0, &su::CLEAR.to_be_bytes());
    assert_eq!(code, rc::SUCCESS);
    state
}

/// Start a session of that type without a key.
fn session(state: &mut TpmState, session_type: u8) -> u32 {
    let parameters = [
        sized(&[1u8; 16]),
        vec![0, 0],
        vec![session_type],
        alg::NULL.to_be_bytes().to_vec(),
        alg::SHA256.to_be_bytes().to_vec(),
    ]
    .concat();
    let (code, v) = turn(state, cc::StartAuthSession, &[rh::NULL, rh::NULL], 0, &parameters);
    assert_eq!(code, rc::SUCCESS);
    word(&v, 0)
}

fn policy_digest(state: &mut TpmState, session: u32) -> Vec<u8> {
    let (code, v) = turn(state, cc::PolicyGetDigest, &[session], 0, &[]);
    assert_eq!(code, rc::SUCCESS);
    buffer(&v, 0).0
}

fn policy_capability(
    state: &mut TpmState,
    session: u32,
    operand: &[u8],
    offset: u16,
    operation: u16,
    capability: u32,
    property: u32,
) -> u32 {
    let parameters = [
        sized(operand),
        offset.to_be_bytes().to_vec(),
        operation.to_be_bytes().to_vec(),
        capability.to_be_bytes().to_vec(),
        property.to_be_bytes().to_vec(),
    ]
    .concat();
    turn(state, cc::PolicyCapability, &[session], 0, &parameters).0
}

#[test]
fn a_policy_compares_a_property() {
    let mut state = started();
    let s = session(&mut state, se::POLICY);
    let family = pt::FAMILY_INDICATOR;
    let list = cap::TPM_PROPERTIES;
    let fresh = policy_digest(&mut state, s);
    let ask = policy_capability;
    assert_eq!(ask(&mut state, s, b"2.1\0", 4, eo::EQ, list, family), rc::POLICY);
    assert_eq!(
        ask(&mut state, s, b"2.0\0", 5, eo::EQ, list, family),
        TpmRc(rc::RANGE).with_parameter(2).0
    );
    assert_eq!(
        ask(&mut state, s, b"2.0\0", 4, 0x000C, list, family),
        TpmRc(rc::VALUE).with_parameter(3).0
    );
    assert_eq!(
        ask(&mut state, s, b"2.0\0", 4, eo::EQ, cap::PCRS, family),
        TpmRc(rc::VALUE).with_parameter(4).0
    );
    assert_eq!(ask(&mut state, s, b"", 0, eo::EQ, list, 0x0000_0001), rc::POLICY);
    assert_eq!(policy_digest(&mut state, s), fresh);
    assert_eq!(ask(&mut state, s, b"2.0\0", 4, eo::EQ, list, family), rc::SUCCESS);
    let held = policy_digest(&mut state, s);
    assert_ne!(held, fresh);

    // A trial session takes any comparison, and comes to the same digest.
    let t = session(&mut state, se::TRIAL);
    assert_eq!(ask(&mut state, t, b"2.0\0", 4, eo::EQ, list, family), rc::SUCCESS);
    assert_eq!(policy_digest(&mut state, t), held);
    assert_eq!(ask(&mut state, t, b"2.1\0", 9, eo::EQ, cap::PCRS, family), rc::SUCCESS);
}

#[test]
fn flushing_takes_the_session_that_is_named() {
    let mut state = started();
    for (handle, kind) in [
        (hc::HMAC_SESSION_FIRST + 1, se::HMAC),
        (hc::POLICY_SESSION_FIRST + 1, se::POLICY),
    ] {
        let s = Session::new(
            handle,
            kind,
            alg::SHA256,
            vec![0u8; 32],
            vec![0u8; 32],
            Vec::new(),
            rh::NULL,
            Vec::new(),
            SymDef::null(),
        )
        .unwrap();
        state.sessions.insert(s).unwrap();
    }
    let handle = hc::POLICY_SESSION_FIRST + 1;
    let (code, _) = turn(&mut state, cc::FlushContext, &[], 0, &handle.to_be_bytes());
    assert_eq!(code, rc::SUCCESS);
    assert!(!state.sessions.contains(handle));
    assert!(state.sessions.contains(hc::HMAC_SESSION_FIRST + 1));
}

#[test]
fn a_pcr_is_not_extended_without_a_hash() {
    let mut state = started();
    let parameters = [vec![0, 0, 0, 1], alg::NULL.to_be_bytes().to_vec()].concat();
    let (code, _) = turn(&mut state, cc::PCR_Extend, &[16], 1, &parameters);
    assert_eq!(code, TpmRc(rc::HASH).with_parameter(1).0);
}

#[test]
fn a_stored_policy_without_a_hash_authorizes_nothing() {
    let mut state = started();
    let s = session(&mut state, se::POLICY);
    let index = hc::NV_INDEX_FIRST + 6;
    let attributes = NvAttributes::OWNERWRITE | NvAttributes::OWNERREAD;
    let public = [
        index.to_be_bytes().to_vec(),
        alg::SHA256.to_be_bytes().to_vec(),
        attributes.to_be_bytes().to_vec(),
        vec![0, 0, 0, 2],
    ]
    .concat();
    let parameters = [vec![0, 0], sized(&public)].concat();
    let (code, _) = turn(&mut state, cc::NV_DefineSpace, &[rh::OWNER], 1, &parameters);
    assert_eq!(code, rc::SUCCESS);
    let parameters = [sized(&alg::NULL.to_be_bytes()), vec![0, 0]].concat();
    let (code, _) = turn(&mut state, cc::NV_Write, &[rh::OWNER, index], 1, &parameters);
    assert_eq!(code, rc::SUCCESS);
    let (code, _) = turn(&mut state, cc::PolicyAuthorizeNV, &[rh::OWNER, index, s], 1, &[]);
    assert_eq!(code, TpmRc(rc::VALUE).with_handle(2).0);
}

/// The public area of an ECC key on the curve of 256 bits.
fn ecc_public(attributes: u32, cipher: &[u8]) -> Vec<u8> {
    [
        alg::ECC.to_be_bytes().to_vec(),
        alg::SHA256.to_be_bytes().to_vec(),
        (attributes
            | ObjectAttributes::FIXED_TPM
            | ObjectAttributes::FIXED_PARENT
            | ObjectAttributes::SENSITIVE_DATA_ORIGIN
            | ObjectAttributes::USER_WITH_AUTH)
            .to_be_bytes()
            .to_vec(),
        vec![0, 0],
        cipher.to_vec(),
        alg::NULL.to_be_bytes().to_vec(),
        curve::NIST_P256.to_be_bytes().to_vec(),
        alg::NULL.to_be_bytes().to_vec(),
        vec![0, 0, 0, 0],
    ]
    .concat()
}

/// Make a Primary Object under the owner: what the command answers after its
/// header.
fn primary_of(state: &mut TpmState, public: &[u8], auth: &[u8]) -> Vec<u8> {
    let sensitive = [sized(auth), vec![0, 0]].concat();
    let parameters =
        [sized(&sensitive), sized(public), vec![0, 0], vec![0, 0, 0, 0]].concat();
    let (code, v) = turn(state, cc::CreatePrimary, &[rh::OWNER], 1, &parameters);
    assert_eq!(code, rc::SUCCESS);
    v
}

fn storage_cipher() -> Vec<u8> {
    [
        alg::AES.to_be_bytes(),
        128u16.to_be_bytes(),
        alg::CFB.to_be_bytes(),
    ]
    .concat()
}

#[test]
fn an_ecc_signature_is_accepted() {
    let mut state = started();
    let public = ecc_public(ObjectAttributes::SIGN_ENCRYPT, &alg::NULL.to_be_bytes());
    let key = word(&primary_of(&mut state, &public, b""), 0);
    let digest = [7u8; 32];
    for scheme in [alg::ECDSA, alg::ECSCHNORR] {
        let parameters = [
            sized(&digest),
            scheme.to_be_bytes().to_vec(),
            alg::SHA256.to_be_bytes().to_vec(),
            st::HASHCHECK.to_be_bytes().to_vec(),
            rh::NULL.to_be_bytes().to_vec(),
            vec![0, 0],
        ]
        .concat();
        let (code, v) = turn(&mut state, cc::Sign, &[key], 1, &parameters);
        assert_eq!(code, rc::SUCCESS);
        let (_, next) = buffer(&v, 8);
        let (_, end) = buffer(&v, next);
        let signature = v[4..end].to_vec();
        let parameters = [sized(&digest), signature.clone()].concat();
        let (code, _) = turn(&mut state, cc::VerifySignature, &[key], 0, &parameters);
        assert_eq!(code, rc::SUCCESS);
        let mut changed = signature;
        let last = changed.len() - 1;
        changed[last] ^= 1;
        let parameters = [sized(&digest), changed].concat();
        let (code, _) = turn(&mut state, cc::VerifySignature, &[key], 0, &parameters);
        assert_eq!(code, TpmRc(rc::SIGNATURE).with_parameter(2).0);
    }
}

#[test]
fn a_shared_point_is_found() {
    let mut state = started();
    let public = ecc_public(ObjectAttributes::DECRYPT, &alg::NULL.to_be_bytes());
    let key = word(&primary_of(&mut state, &public, b""), 0);
    let (code, v) = turn(&mut state, cc::ECDH_KeyGen, &[key], 0, &[]);
    assert_eq!(code, rc::SUCCESS);
    let (shared, next) = buffer(&v, 0);
    let (point, _) = buffer(&v, next);
    assert_ne!(shared, point);
    let (code, v) = turn(&mut state, cc::ECDH_ZGen, &[key], 1, &sized(&point));
    assert_eq!(code, rc::SUCCESS);
    assert_eq!(buffer(&v, 4).0, shared);
}

#[test]
fn a_rewrapped_duplication_is_the_same() {
    let mut state = started();
    let public = ecc_public(
        ObjectAttributes::RESTRICTED | ObjectAttributes::DECRYPT,
        &storage_cipher(),
    );
    let parent = word(&primary_of(&mut state, &public, b""), 0);
    let name = [alg::SHA256.to_be_bytes().to_vec(), vec![9u8; 32]].concat();
    let blob = sized(b"what is inside");
    let parameters = [sized(&blob), sized(&name), vec![0, 0]].concat();
    let (code, plain) = turn(&mut state, cc::Rewrap, &[rh::NULL, rh::NULL], 1, &parameters);
    assert_eq!(code, rc::SUCCESS);
    assert_eq!(plain[4..plain.len() - 5].to_vec(), [sized(&blob), vec![0, 0]].concat());
    let (code, v) = turn(&mut state, cc::Rewrap, &[rh::NULL, parent], 1, &parameters);
    assert_eq!(code, rc::SUCCESS);
    let (wrapped, next) = buffer(&v, 4);
    let (secret, _) = buffer(&v, next);
    assert_ne!(wrapped, blob);
    let parameters = [sized(&wrapped), sized(&name), sized(&secret)].concat();
    let (code, back) = turn(&mut state, cc::Rewrap, &[parent, rh::NULL], 1, &parameters);
    assert_eq!(code, rc::SUCCESS);
    assert_eq!(back, plain);
    let parameters = [sized(&blob), sized(&[0, 0, 1]), vec![0, 0]].concat();
    let (code, _) = turn(&mut state, cc::Rewrap, &[rh::NULL, rh::NULL], 1, &parameters);
    assert_eq!(code, TpmRc(rc::SIZE).with_parameter(2).0);
}

#[test]
fn each_primary_object_keeps_its_own_password() {
    let mut state = started();
    let public = ecc_public(
        ObjectAttributes::RESTRICTED | ObjectAttributes::DECRYPT,
        &storage_cipher(),
    );
    let one = primary_of(&mut state, &public, b"first");
    let two = primary_of(&mut state, &public, b"second");
    assert_ne!(word(&one, 0), word(&two, 0));
    assert_eq!(buffer(&one, 8).0, buffer(&two, 8).0);
    let mut names = Vec::new();
    for v in [&one, &two] {
        let (code, read) = turn(&mut state, cc::ReadPublic, &[word(v, 0)], 0, &[]);
        assert_eq!(code, rc::SUCCESS);
        names.push(read);
    }
    assert_eq!(names[0], names[1]);
    for (v, password) in [(&one, b"first".to_vec()), (&two, b"second".to_vec())] {
        match state.objects.get(word(v, 0)).unwrap() {
            Slot::Object(o) => {
                let held = o.sensitive.as_ref().unwrap().auth_value.as_slice();
                assert_eq!(held, &password[..]);
            }
            Slot::Sequence(_) => panic!("no object"),
        }
    }
}

fn cipher_object(attributes: u32) -> Object {
    let public = TpmtPublic {
        object_type: alg::SYMCIPHER,
        name_alg: alg::SHA256,
        object_attributes: ObjectAttributes(
            ObjectAttributes::USER_WITH_AUTH
                | ObjectAttributes::SIGN_ENCRYPT
                | ObjectAttributes::DECRYPT
                | attributes,
        ),
        auth_policy: Tpm2bDigest::empty(),
        parameters: PublicParms::SymCipher {
            sym: SymDef::new(alg::AES, 128, alg::CFB),
        },
        unique: PublicId::Sym(Tpm2bDigest::empty()),
    };
    let sensitive = TpmtSensitive {
        sensitive_type: alg::SYMCIPHER,
        auth_value: Tpm2bDigest::empty(),
        seed_value: Tpm2bDigest::empty(),
        sensitive: SensitiveComposite::Sym(Tpm2bSymKey::new(vec![3u8; 16]).unwrap()),
    };
    Object::new(public, Some(sensitive), rh::OWNER, &[], true)
}

#[test]
fn both_cipher_commands_answer_alike() {
    let mut state = started();
    let key = state.objects.insert(Slot::Object(Box::new(cipher_object(0)))).unwrap();
    let restricted = state
        .objects
        .insert(Slot::Object(Box::new(cipher_object(ObjectAttributes::RESTRICTED))))
        .unwrap();
    let data = b"seventeen octets!";
    let head = |decrypt: u8| {
        [vec![decrypt], alg::NULL.to_be_bytes().to_vec(), sized(&[4u8; 16])].concat()
    };
    let first = [head(0), sized(data)].concat();
    let second = [sized(data), head(0)].concat();
    let (code, a) = turn(&mut state, cc::EncryptDecrypt, &[key], 1, &first);
    assert_eq!(code, rc::SUCCESS);
    let (code, b) = turn(&mut state, cc::EncryptDecrypt2, &[key], 1, &second);
    assert_eq!(code, rc::SUCCESS);
    assert_eq!(a, b);
    let out = buffer(&a, 4).0;
    assert_eq!(out.len(), data.len());
    let back = [head(1), sized(&out)].concat();
    let (code, v) = turn(&mut state, cc::EncryptDecrypt, &[key], 1, &back);
    assert_eq!(code, rc::SUCCESS);
    assert_eq!(buffer(&v, 4).0, data);
    for (command, parameters) in [(cc::EncryptDecrypt, first), (cc::EncryptDecrypt2, second)] {
        let (code, _) = turn(&mut state, command, &[restricted], 1, &parameters);
        assert_eq!(code, TpmRc(rc::ATTRIBUTES).with_handle(1).0);
    }
}

#[test]
fn the_properties_ascend() {
    let state = TpmState::manufacture(&[0x5a; 48]).unwrap();
    let (more, data) = build_capability(&state, cap::TPM_PROPERTIES, pt::REVISION, 7).unwrap();
    assert!(more);
    match data {
        Capabilities::TpmProperties(l) => {
            assert_eq!(l.items.len(), 7);
            assert_eq!(l.items[0].property, pt::REVISION);
            for pair in l.items.windows(2) {
                assert!(pair[0].property < pair[1].property);
            }
        }
        _ => panic!("wrong capability"),
    }
    assert_eq!(
        build_capability(&state, 0x0000_00FF, 0, 1).unwrap_err(),
        TpmRc(rc::VALUE).with_parameter(1)
    );
}

#[test]
fn a_context_outlives_what_does_not_concern_it() {
    let mut state = started();
    let public = ecc_public(
        ObjectAttributes::RESTRICTED | ObjectAttributes::DECRYPT,
        &storage_cipher(),
    );
    let object = word(&primary_of(&mut state, &public, b""), 0);
    let (code, first) = turn(&mut state, cc::ReadPublic, &[object], 0, &[]);
    assert_eq!(code, rc::SUCCESS);
    let (code, context) = turn(&mut state, cc::ContextSave, &[object], 0, &[]);
    assert_eq!(code, rc::SUCCESS);
    let (code, _) = turn(&mut state, cc::FlushContext, &[], 0, &object.to_be_bytes());
    assert_eq!(code, rc::SUCCESS);

    // Other work goes on: a session is saved, the clock is set, a key is loaded.
    let s = session(&mut state, se::HMAC);
    let (code, _) = turn(&mut state, cc::ContextSave, &[s], 0, &[]);
    assert_eq!(code, rc::SUCCESS);
    let (code, _) = turn(&mut state, cc::ClockSet, &[rh::OWNER], 1, &0x10000u64.to_be_bytes());
    assert_eq!(code, rc::SUCCESS);
    state.objects.insert(Slot::Object(Box::new(cipher_object(0)))).unwrap();

    // The sequence number, the handle, the hierarchy and the blob are all bound.
    for (at, bit) in [(7, 1u8), (11, 2), (15, 0x0A), (context.len() - 1, 1)] {
        let mut changed = context.clone();
        changed[at] ^= bit;
        let (code, _) = turn(&mut state, cc::ContextLoad, &[], 0, &changed);
        assert_ne!(code, rc::SUCCESS, "octet {at}");
    }
    let (code, v) = turn(&mut state, cc::ContextLoad, &[], 0, &context);
    assert_eq!(code, rc::SUCCESS);
    let (code, second) = turn(&mut state, cc::ReadPublic, &[word(&v, 0)], 0, &[]);
    assert_eq!(code, rc::SUCCESS);
    assert_eq!(first, second);
}

#[test]
fn a_private_area_is_not_loaded_for_another_object() {
    let mut state = started();
    let public = ecc_public(
        ObjectAttributes::RESTRICTED | ObjectAttributes::DECRYPT,
        &storage_cipher(),
    );
    let parent = word(&primary_of(&mut state, &public, b""), 0);
    let attributes = ObjectAttributes::FIXED_TPM
        | ObjectAttributes::FIXED_PARENT
        | ObjectAttributes::USER_WITH_AUTH;
    let template = [
        alg::KEYEDHASH.to_be_bytes().to_vec(),
        alg::SHA256.to_be_bytes().to_vec(),
        attributes.to_be_bytes().to_vec(),
        vec![0, 0],
        alg::NULL.to_be_bytes().to_vec(),
        vec![0, 0],
    ]
    .concat();
    let mut made = Vec::new();
    for secret in [b"one", b"two"] {
        let sensitive = [vec![0, 0], sized(secret)].concat();
        let parameters =
            [sized(&sensitive), sized(&template), vec![0, 0], vec![0, 0, 0, 0]].concat();
        let (code, v) = turn(&mut state, cc::Create, &[parent], 1, &parameters);
        assert_eq!(code, rc::SUCCESS);
        let (private, next) = buffer(&v, 4);
        made.push((private, buffer(&v, next).0));
    }
    let parameters = [sized(&made[0].0), sized(&made[1].1)].concat();
    let (code, _) = turn(&mut state, cc::Load, &[parent], 1, &parameters);
    assert_eq!(code & 0x0BF, rc::INTEGRITY);
    let parameters = [sized(&made[0].0), sized(&made[0].1)].concat();
    let (code, _) = turn(&mut state, cc::Load, &[parent], 1, &parameters);
    assert_eq!(code, rc::SUCCESS);
}

#[test]
fn an_event_sequence_is_not_completed_as_a_hash() {
    let mut state = started();
    let parameters = [vec![0, 0], alg::NULL.to_be_bytes().to_vec()].concat();
    let (code, v) = turn(&mut state, cc::HashSequenceStart, &[], 0, &parameters);
    assert_eq!(code, rc::SUCCESS);
    let parameters = [sized(b"x"), rh::NULL.to_be_bytes().to_vec()].concat();
    let (code, _) = turn(&mut state, cc::SequenceComplete, &[word(&v, 0)], 1, &parameters);
    assert_eq!(code, TpmRc(rc::MODE).with_handle(1).0);
}
