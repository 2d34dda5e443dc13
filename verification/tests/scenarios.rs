//! Whole scenarios: several commands on one TPM, octets in and octets out.

use swtrust::tpm::commands::execute::run;
use swtrust::tpm::constants::{alg, cc, curve, hc, rc, rh, se, st, su};
use swtrust::tpm::crypto::hash::digest;
use swtrust::tpm::engine::object::{Object, Slot};
use swtrust::tpm::engine::state::TpmState;
use swtrust::tpm::structures::attributes::{NvAttributes, ObjectAttributes};
use swtrust::tpm::structures::base::{Tpm2bDigest, Tpm2bSymKey};
use swtrust::tpm::structures::keys::{
    PublicId, PublicParms, SensitiveComposite, TpmtPublic, TpmtSensitive,
};
use swtrust::tpm::structures::schemes::SymDef;

fn sized(v: &[u8]) -> Vec<u8> {
    let mut out = (v.len() as u16).to_be_bytes().to_vec();
    out.extend_from_slice(v);
    out
}

fn framed(tag: u16, code: u32, body: &[u8]) -> Vec<u8> {
    let mut out = tag.to_be_bytes().to_vec();
    out.extend_from_slice(&(10 + body.len() as u32).to_be_bytes());
    out.extend_from_slice(&code.to_be_bytes());
    out.extend_from_slice(body);
    out
}

/// Run a command without authorizations. The answer is the response code and
/// what follows the header.
fn plain(state: &mut TpmState, code: u32, handles: &[u32], parameters: &[u8]) -> (u32, Vec<u8>) {
    let mut body = Vec::new();
    for h in handles {
        body.extend_from_slice(&h.to_be_bytes());
    }
    body.extend_from_slice(parameters);
    taken(run(state, 0, &framed(st::NO_SESSIONS, code, &body)))
}

/// Run a command whose first handle is authorized by a password.
fn authorized(
    state: &mut TpmState,
    code: u32,
    handles: &[u32],
    password: &[u8],
    parameters: &[u8],
) -> (u32, Vec<u8>) {
    let mut auth = rh::RS_PW.to_be_bytes().to_vec();
    auth.extend_from_slice(&[0, 0, 1]);
    auth.extend_from_slice(&sized(password));
    let mut body = Vec::new();
    for h in handles {
        body.extend_from_slice(&h.to_be_bytes());
    }
    body.extend_from_slice(&(auth.len() as u32).to_be_bytes());
    body.extend_from_slice(&auth);
    body.extend_from_slice(parameters);
    taken(run(state, 0, &framed(st::SESSIONS, code, &body)))
}

fn taken(response: Vec<u8>) -> (u32, Vec<u8>) {
    let size = u32::from_be_bytes([response[2], response[3], response[4], response[5]]);
    assert_eq!(size as usize, response.len());
    let code = u32::from_be_bytes([response[6], response[7], response[8], response[9]]);
    (code, response[10..].to_vec())
}

/// The sized buffer at `at`, and where the next one starts.
fn buffer(v: &[u8], at: usize) -> (Vec<u8>, usize) {
    let n = u16::from_be_bytes([v[at], v[at + 1]]) as usize;
    (v[at + 2..at + 2 + n].to_vec(), at + 2 + n)
}

fn word(v: &[u8], at: usize) -> u32 {
    u32::from_be_bytes([v[at], v[at + 1], v[at + 2], v[at + 3]])
}

fn started() -> TpmState {
    let mut state = TpmState::manufacture(&[0x5a; 48]).unwrap();
    let (code, _) = plain(&mut state, cc::Startup, &[], &su::CLEAR.to_be_bytes());
    assert_eq!(code, rc::SUCCESS);
    state
}

/// The public area of an ECC storage key.
fn storage_public() -> Vec<u8> {
    let attributes = ObjectAttributes::FIXED_TPM
        | ObjectAttributes::FIXED_PARENT
        | ObjectAttributes::SENSITIVE_DATA_ORIGIN
        | ObjectAttributes::USER_WITH_AUTH
        | ObjectAttributes::RESTRICTED
        | ObjectAttributes::DECRYPT;
    let mut v = Vec::new();
    v.extend_from_slice(&alg::ECC.to_be_bytes());
    v.extend_from_slice(&alg::SHA256.to_be_bytes());
    v.extend_from_slice(&attributes.to_be_bytes());
    v.extend_from_slice(&[0, 0]);
    v.extend_from_slice(&alg::AES.to_be_bytes());
    v.extend_from_slice(&128u16.to_be_bytes());
    v.extend_from_slice(&alg::CFB.to_be_bytes());
    v.extend_from_slice(&alg::NULL.to_be_bytes());
    v.extend_from_slice(&curve::NIST_P256.to_be_bytes());
    v.extend_from_slice(&alg::NULL.to_be_bytes());
    v.extend_from_slice(&[0, 0, 0, 0]);
    v
}

/// Make a Primary Object: its handle and its public area.
fn primary(state: &mut TpmState) -> (u32, Vec<u8>) {
    let parameters = [
        sized(&[0, 0, 0, 0]),
        sized(&storage_public()),
        vec![0, 0],
        vec![0, 0, 0, 0],
    ]
    .concat();
    let (code, v) = authorized(state, cc::CreatePrimary, &[rh::OWNER], b"", &parameters);
    assert_eq!(code, rc::SUCCESS);
    (word(&v, 0), buffer(&v, 8).0)
}

#[test]
fn a_primary_object_can_be_made_again() {
    let mut state = started();
    let (first, one) = primary(&mut state);
    let (code, _) = plain(&mut state, cc::FlushContext, &[], &first.to_be_bytes());
    assert_eq!(code, rc::SUCCESS);
    assert_eq!(state.objects.len(), 0);
    let (_, other) = primary(&mut state);
    assert_eq!(one, other);
    // After the owner has gone, the same template gives another key.
    let (code, _) = authorized(&mut state, cc::Clear, &[rh::LOCKOUT], b"", &[]);
    assert_eq!(code, rc::SUCCESS);
    let (_, third) = primary(&mut state);
    assert_ne!(one, third);
}

#[test]
fn a_sealed_value_comes_back_to_whoever_knows_the_password() {
    let mut state = started();
    let (parent, _) = primary(&mut state);
    let attributes = ObjectAttributes::FIXED_TPM
        | ObjectAttributes::FIXED_PARENT
        | ObjectAttributes::USER_WITH_AUTH;
    let mut public = Vec::new();
    public.extend_from_slice(&alg::KEYEDHASH.to_be_bytes());
    public.extend_from_slice(&alg::SHA256.to_be_bytes());
    public.extend_from_slice(&attributes.to_be_bytes());
    public.extend_from_slice(&[0, 0]);
    public.extend_from_slice(&alg::NULL.to_be_bytes());
    public.extend_from_slice(&[0, 0]);
    let sensitive = [sized(b"password"), sized(b"the secret")].concat();
    let parameters = [
        sized(&sensitive),
        sized(&public),
        vec![0, 0],
        vec![0, 0, 0, 0],
    ]
    .concat();
    let (code, v) = authorized(&mut state, cc::Create, &[parent], b"", &parameters);
    assert_eq!(code, rc::SUCCESS);
    let (private, next) = buffer(&v, 4);
    let (area, _) = buffer(&v, next);
    let parameters = [sized(&private), sized(&area)].concat();
    let (code, v) = authorized(&mut state, cc::Load, &[parent], b"", &parameters);
    assert_eq!(code, rc::SUCCESS);
    let child = word(&v, 0);

    let (code, _) = authorized(&mut state, cc::Unseal, &[child], b"wrong", &[]);
    assert_eq!(code & 0x0BF, rc::AUTH_FAIL);
    assert_eq!(state.lockout.failed_tries, 1);
    let (code, v) = authorized(&mut state, cc::Unseal, &[child], b"password", &[]);
    assert_eq!(code, rc::SUCCESS);
    assert_eq!(buffer(&v, 4).0, b"the secret");
    assert_eq!(state.lockout.failed_tries, 1);

    // A private area that was changed is not loaded.
    let mut bad = private;
    let last = bad.len() - 1;
    bad[last] ^= 1;
    let parameters = [sized(&bad), sized(&area)].concat();
    let (code, _) = authorized(&mut state, cc::Load, &[parent], b"", &parameters);
    assert_eq!(code & 0x0BF, rc::INTEGRITY);
}

#[test]
fn an_index_reads_back_what_was_written() {
    let mut state = started();
    let index = hc::NV_INDEX_FIRST + 5;
    let attributes = NvAttributes::OWNERWRITE | NvAttributes::OWNERREAD;
    let mut public = index.to_be_bytes().to_vec();
    public.extend_from_slice(&alg::SHA256.to_be_bytes());
    public.extend_from_slice(&attributes.to_be_bytes());
    public.extend_from_slice(&[0, 0, 0, 8]);
    let parameters = [vec![0, 0], sized(&public)].concat();
    let (code, _) = authorized(&mut state, cc::NV_DefineSpace, &[rh::OWNER], b"", &parameters);
    assert_eq!(code, rc::SUCCESS);

    // Nothing has been written yet.
    let (code, _) = authorized(
        &mut state,
        cc::NV_Read,
        &[rh::OWNER, index],
        b"",
        &[0, 8, 0, 0],
    );
    assert_eq!(code, rc::NV_UNINITIALIZED);

    let parameters = [sized(b"abcd"), vec![0, 2]].concat();
    let (code, _) = authorized(&mut state, cc::NV_Write, &[rh::OWNER, index], b"", &parameters);
    assert_eq!(code, rc::SUCCESS);
    let (code, v) = authorized(
        &mut state,
        cc::NV_Read,
        &[rh::OWNER, index],
        b"",
        &[0, 4, 0, 2],
    );
    assert_eq!(code, rc::SUCCESS);
    assert_eq!(buffer(&v, 4).0, b"abcd");

    // A write past the end is refused.
    let parameters = [sized(b"abcd"), vec![0, 5]].concat();
    let (code, _) = authorized(&mut state, cc::NV_Write, &[rh::OWNER, index], b"", &parameters);
    assert_eq!(code, rc::NV_RANGE);
}

#[test]
fn a_sequence_hashes_all_its_pieces() {
    let mut state = started();
    let parameters = [vec![0, 0], alg::SHA256.to_be_bytes().to_vec()].concat();
    let (code, v) = plain(&mut state, cc::HashSequenceStart, &[], &parameters);
    assert_eq!(code, rc::SUCCESS);
    let handle = word(&v, 0);
    let (code, _) = authorized(&mut state, cc::SequenceUpdate, &[handle], b"", &sized(b"a"));
    assert_eq!(code, rc::SUCCESS);
    let parameters = [sized(b"bc"), rh::NULL.to_be_bytes().to_vec()].concat();
    let (code, v) = authorized(&mut state, cc::SequenceComplete, &[handle], b"", &parameters);
    assert_eq!(code, rc::SUCCESS);
    assert_eq!(buffer(&v, 4).0, digest(alg::SHA256, b"abc").unwrap());
    assert_eq!(state.objects.len(), 0);
}

#[test]
fn a_saved_session_is_loaded_once() {
    let mut state = started();
    let parameters = [
        sized(&[1u8; 16]),
        vec![0, 0],
        vec![se::HMAC],
        alg::NULL.to_be_bytes().to_vec(),
        alg::SHA256.to_be_bytes().to_vec(),
    ]
    .concat();
    let (code, v) = plain(&mut state, cc::StartAuthSession, &[rh::NULL, rh::NULL], &parameters);
    assert_eq!(code, rc::SUCCESS);
    let handle = word(&v, 0);
    let (code, context) = plain(&mut state, cc::ContextSave, &[handle], &[]);
    assert_eq!(code, rc::SUCCESS);
    assert!(!state.sessions.contains(handle));
    let (code, v) = plain(&mut state, cc::ContextLoad, &[], &context);
    assert_eq!(code, rc::SUCCESS);
    assert_eq!(word(&v, 0), handle);
    assert!(state.sessions.contains(handle));
    // The context cannot be used a second time.
    let (code, _) = plain(&mut state, cc::ContextLoad, &[], &context);
    assert_ne!(code, rc::SUCCESS);
}

#[test]
fn the_clock_does_not_go_back() {
    let mut state = started();
    let (code, _) = authorized(
        &mut state,
        cc::ClockSet,
        &[rh::OWNER],
        b"",
        &0x10000u64.to_be_bytes(),
    );
    assert_eq!(code, rc::SUCCESS);
    let (code, _) = authorized(
        &mut state,
        cc::ClockSet,
        &[rh::OWNER],
        b"",
        &0x8000u64.to_be_bytes(),
    );
    assert_eq!(code & 0x0BF, rc::VALUE);
    assert!(state.clock.clock >= 0x10000);
    state.clock.advance(5);
    assert_eq!(state.clock.clock, 0x10005);
}

#[test]
fn a_key_decrypts_what_it_encrypted_in_every_mode() {
    for mode in [alg::CFB, alg::CTR, alg::OFB, alg::CBC, alg::ECB] {
        let mut state = started();
        let public = TpmtPublic {
            object_type: alg::SYMCIPHER,
            name_alg: alg::SHA256,
            object_attributes: ObjectAttributes(
                ObjectAttributes::USER_WITH_AUTH
                    | ObjectAttributes::SIGN_ENCRYPT
                    | ObjectAttributes::DECRYPT,
            ),
            auth_policy: Tpm2bDigest::empty(),
            parameters: PublicParms::SymCipher {
                sym: SymDef::new(alg::AES, 128, mode),
            },
            unique: PublicId::Sym(Tpm2bDigest::empty()),
        };
        let sensitive = TpmtSensitive {
            sensitive_type: alg::SYMCIPHER,
            auth_value: Tpm2bDigest::empty(),
            seed_value: Tpm2bDigest::empty(),
            sensitive: SensitiveComposite::Sym(Tpm2bSymKey::new(vec![3u8; 16]).unwrap()),
        };
        let object = Object::new(public, Some(sensitive), rh::OWNER, &[], true);
        let handle = state.objects.insert(Slot::Object(Box::new(object))).unwrap();
        let iv = if mode == alg::ECB {
            vec![0, 0]
        } else {
            sized(&[9u8; 16])
        };
        let data = [0x42u8; 32];
        let turn = |state: &mut TpmState, decrypt: u8, data: &[u8]| {
            let parameters =
                [sized(data), vec![decrypt], mode.to_be_bytes().to_vec(), iv.clone()].concat();
            let (code, v) = authorized(state, cc::EncryptDecrypt2, &[handle], b"", &parameters);
            assert_eq!(code, rc::SUCCESS, "mode {mode:#x}");
            buffer(&v, 4).0
        };
        let out = turn(&mut state, 0, &data);
        assert_ne!(out, data);
        assert_eq!(turn(&mut state, 1, &out), data);
    }
}

#[test]
fn an_authenticated_timer_cannot_be_set() {
    let mut state = started();
    for handle in [rh::ACT_0, rh::ACT_0 + 1, rh::ACT_0 + 15] {
        let (code, v) = authorized(
            &mut state,
            cc::ACT_SetTimeout,
            &[handle],
            b"",
            &5u32.to_be_bytes(),
        );
        assert_eq!(code, rc::VALUE | 0x100);
        assert!(v.is_empty());
    }
    assert_eq!(state.act.remaining, 0);
    assert!(!state.act.signaled);
    assert!(!state.act.set_since_startup);
}

#[test]
fn a_command_that_fails_leaves_the_tpm_alone() {
    let mut state = started();
    let parameters = [vec![0, 0], alg::SHA256.to_be_bytes().to_vec()].concat();
    let (code, v) = plain(&mut state, cc::HashSequenceStart, &[], &parameters);
    assert_eq!(code, rc::SUCCESS);
    let handle = word(&v, 0);
    let (code, _) = authorized(&mut state, cc::SequenceUpdate, &[handle], b"", &sized(b"a"));
    assert_eq!(code, rc::SUCCESS);
    // A hierarchy there is none of, and octets too many.
    let wrong = [sized(b"bc"), 0x1234u32.to_be_bytes().to_vec()].concat();
    let (code, _) = authorized(&mut state, cc::SequenceComplete, &[handle], b"", &wrong);
    assert_ne!(code, rc::SUCCESS);
    let long = [sized(b"bc"), rh::NULL.to_be_bytes().to_vec(), vec![0]].concat();
    let (code, _) = authorized(&mut state, cc::SequenceComplete, &[handle], b"", &long);
    assert_eq!(code, rc::SIZE);
    assert_eq!(state.objects.len(), 1);
    let parameters = [sized(b"bc"), rh::NULL.to_be_bytes().to_vec()].concat();
    let (code, v) = authorized(&mut state, cc::SequenceComplete, &[handle], b"", &parameters);
    assert_eq!(code, rc::SUCCESS);
    assert_eq!(buffer(&v, 4).0, digest(alg::SHA256, b"abc").unwrap());
}

#[test]
fn a_response_frames_itself() {
    let mut state = started();
    let good = run(&mut state, 0, &framed(st::NO_SESSIONS, cc::GetRandom, &[0, 4]));
    assert_eq!(&good[0..2], &st::NO_SESSIONS.to_be_bytes());
    assert_eq!(word(&good, 2) as usize, good.len());
    assert_eq!(word(&good, 6), rc::SUCCESS);
    assert_eq!(good.len(), 16);
    let bad = run(&mut state, 0, &framed(st::NO_SESSIONS, cc::GetRandom, &[0]));
    assert_eq!(&bad[0..2], &st::NO_SESSIONS.to_be_bytes());
    assert_eq!(word(&bad, 2), 10);
    assert_eq!(bad.len(), 10);
    assert_ne!(word(&bad, 6), rc::SUCCESS);
}
