//! What one command gives out and another takes back.

use swtrust::tpm::commands::capability::build_capability;
use swtrust::tpm::commands::execute::run;
use swtrust::tpm::constants::{alg, cap, cc, curve, rc, rh, st, su};
use swtrust::tpm::engine::object::{Object, Slot};
use swtrust::tpm::engine::state::TpmState;
use swtrust::tpm::machine::Machine;
use swtrust::tpm::structures::attributes::ObjectAttributes;
use swtrust::tpm::structures::base::{Tpm2bDigest, Tpm2bPrivateKeyRsa, Tpm2bPublicKeyRsa};
use swtrust::tpm::structures::capability::Capabilities;
use swtrust::tpm::structures::keys::{
    PublicId, PublicParms, SensitiveComposite, TpmtPublic, TpmtSensitive,
};
use swtrust::tpm::structures::schemes::{Scheme, SchemeDetail, SymDef};

const PRIME: &str = "df27b474402615f619baa4a49f0ac0170928ca2ceca468e9ce6ba18b8ad12fc9\
                     a0d4f2e345ffb65d9f9bc6d3adae2c57eafd6a994409a2329ef50006a43e3769";

const MODULUS: &str = "aa1acc16996f2acaf106f7a4e4a56d4ccb8e7ffe730c2c4bb42ed9b3bc0e8fb3\
                       b76593673d9da46f1a51697811427a53425dda218e982ac2775af531034813fd\
                       d309f6597ae69def02064f6618168f846449da96e1af42b1ab81fcf7be0dc185\
                       3a7d0117fde00635ff8aeeb416711854d51e73082ab30f4fd44c9ae7eddc7c67";

fn octets(hex: &str) -> Vec<u8> {
    (0..hex.len() / 2)
        .map(|i| u8::from_str_radix(&hex[2 * i..2 * i + 2], 16).unwrap())
        .collect()
}

fn sized(v: &[u8]) -> Vec<u8> {
    let mut out = (v.len() as u16).to_be_bytes().to_vec();
    out.extend_from_slice(v);
    out
}

fn word(v: &[u8], at: usize) -> u32 {
    u32::from_be_bytes([v[at], v[at + 1], v[at + 2], v[at + 3]])
}

/// The sized buffer at `at`, and where the next one starts.
fn buffer(v: &[u8], at: usize) -> (Vec<u8>, usize) {
    let n = u16::from_be_bytes([v[at], v[at + 1]]) as usize;
    (v[at + 2..at + 2 + n].to_vec(), at + 2 + n)
}

/// Run a command whose first `auths` handles have the empty password. The answer
/// is the response code and what follows the header.
fn turn(
    state: &mut TpmState,
    code: u32,
    handles: &[u32],
    auths: usize,
    parameters: &[u8],
) -> (u32, Vec<u8>) {
    let mut body = Vec::new();
    for h in handles {
        body.extend_from_slice(&h.to_be_bytes());
    }
    if auths > 0 {
        let mut area = Vec::new();
        for _ in 0..auths {
            area.extend_from_slice(&rh::RS_PW.to_be_bytes());
            area.extend_from_slice(&[0, 0, 1, 0, 0]);
        }
        body.extend_from_slice(&(area.len() as u32).to_be_bytes());
        body.extend_from_slice(&area);
    }
    body.extend_from_slice(parameters);
    let tag = if auths > 0 { st::SESSIONS } else { st::NO_SESSIONS };
    let mut command = tag.to_be_bytes().to_vec();
    command.extend_from_slice(&(10 + body.len() as u32).to_be_bytes());
    command.extend_from_slice(&code.to_be_bytes());
    command.extend_from_slice(&body);
    let response = run(state, 0, &command);
    (word(&response, 6), response[10..].to_vec())
}

fn started() -> TpmState {
    let mut state = TpmState::manufacture(&[0x5a; 48]).unwrap();
    let (code, _) = turn(&mut state, cc::Startup, &[], 0, &su::CLEAR.to_be_bytes());
    assert_eq!(code, rc::SUCCESS);
    state
}

/// An RSA key with the attributes, as it is held in a slot.
fn rsa_object(attributes: u32, symmetric: SymDef) -> Object {
    let public = TpmtPublic {
        object_type: alg::RSA,
        name_alg: alg::SHA256,
        object_attributes: ObjectAttributes(ObjectAttributes::USER_WITH_AUTH | attributes),
        auth_policy: Tpm2bDigest::empty(),
        parameters: PublicParms::Rsa {
            symmetric,
            scheme: Scheme {
                scheme: alg::NULL,
                detail: SchemeDetail::Empty,
            },
            key_bits: 1024,
            exponent: 0,
        },
        unique: PublicId::Rsa(Tpm2bPublicKeyRsa::new(octets(MODULUS)).unwrap()),
    };
    let sensitive = TpmtSensitive {
        sensitive_type: alg::RSA,
        auth_value: Tpm2bDigest::empty(),
        seed_value: Tpm2bDigest::empty(),
        sensitive: SensitiveComposite::Rsa(Tpm2bPrivateKeyRsa::new(octets(PRIME)).unwrap()),
    };
    Object::new(public, Some(sensitive), rh::OWNER, &[], true)
}

fn loaded(state: &mut TpmState, object: Object) -> u32 {
    state.objects.insert(Slot::Object(Box::new(object))).unwrap()
}

fn no_cipher() -> SymDef {
    SymDef::new(alg::NULL, 0, alg::NULL)
}

#[test]
fn an_rsa_signature_is_accepted() {
    let mut state = started();
    let key = loaded(
        &mut state,
        rsa_object(ObjectAttributes::SIGN_ENCRYPT, no_cipher()),
    );
    let digest = [7u8; 32];
    for scheme in [alg::RSASSA, alg::RSAPSS] {
        let parameters = [
            sized(&digest),
            scheme.to_be_bytes().to_vec(),
            alg::SHA256.to_be_bytes().to_vec(),
            st::HASHCHECK.to_be_bytes().to_vec(),
            rh::NULL.to_be_bytes().to_vec(),
            vec![0, 0],
        ]
        .concat();
        let (code, v) = turn(&mut state, cc::Sign, &[key], 1, &parameters);
        assert_eq!(code, rc::SUCCESS);
        let (sig, end) = buffer(&v, 8);
        assert_eq!(sig.len(), 128);
        let signature = v[4..end].to_vec();
        let parameters = [sized(&digest), signature.clone()].concat();
        let (code, _) = turn(&mut state, cc::VerifySignature, &[key], 0, &parameters);
        assert_eq!(code, rc::SUCCESS);
        let mut changed = signature.clone();
        let last = changed.len() - 1;
        changed[last] ^= 1;
        let parameters = [sized(&digest), changed].concat();
        let (code, _) = turn(&mut state, cc::VerifySignature, &[key], 0, &parameters);
        assert_eq!(code & 0x0BF, rc::SIGNATURE);
        let parameters = [sized(&[8u8; 32]), signature].concat();
        let (code, _) = turn(&mut state, cc::VerifySignature, &[key], 0, &parameters);
        assert_eq!(code & 0x0BF, rc::SIGNATURE);
    }
}

#[test]
fn an_rsa_key_decrypts_what_was_encrypted_to_it() {
    let mut state = started();
    let key = loaded(&mut state, rsa_object(ObjectAttributes::DECRYPT, no_cipher()));
    let oaep = [alg::OAEP.to_be_bytes(), alg::SHA256.to_be_bytes()].concat();
    let rsaes = alg::RSAES.to_be_bytes().to_vec();
    for scheme in [oaep, rsaes] {
        let parameters = [sized(b"the message"), scheme.clone(), vec![0, 0]].concat();
        let (code, v) = turn(&mut state, cc::RSA_Encrypt, &[key], 0, &parameters);
        assert_eq!(code, rc::SUCCESS);
        let (cipher, _) = buffer(&v, 0);
        assert_eq!(cipher.len(), 128);
        let parameters = [sized(&cipher), scheme, vec![0, 0]].concat();
        let (code, v) = turn(&mut state, cc::RSA_Decrypt, &[key], 1, &parameters);
        assert_eq!(code, rc::SUCCESS);
        assert_eq!(buffer(&v, 4).0, b"the message");
    }
}

#[test]
fn a_credential_reaches_its_holder() {
    let mut state = started();
    let storage = rsa_object(
        ObjectAttributes::DECRYPT | ObjectAttributes::RESTRICTED,
        SymDef::new(alg::AES, 128, alg::CFB),
    );
    let key = loaded(&mut state, storage);
    let signer = rsa_object(ObjectAttributes::SIGN_ENCRYPT, no_cipher());
    let name = signer.name.clone();
    let active = loaded(&mut state, signer);
    let parameters = [sized(b"credential"), sized(&name)].concat();
    let (code, made) = turn(&mut state, cc::MakeCredential, &[key], 0, &parameters);
    assert_eq!(code, rc::SUCCESS);
    let (code, v) = turn(&mut state, cc::ActivateCredential, &[active, key], 2, &made);
    assert_eq!(code, rc::SUCCESS);
    assert_eq!(buffer(&v, 4).0, b"credential");
    // It was not made for another Name.
    let (code, _) = turn(&mut state, cc::ActivateCredential, &[key, key], 2, &made);
    assert_eq!(code & 0x0BF, rc::INTEGRITY);
}

/// Make a Primary Object and return everything that follows the header.
fn primary(state: &mut TpmState) -> Vec<u8> {
    let attributes = ObjectAttributes::FIXED_TPM
        | ObjectAttributes::FIXED_PARENT
        | ObjectAttributes::SENSITIVE_DATA_ORIGIN
        | ObjectAttributes::USER_WITH_AUTH
        | ObjectAttributes::RESTRICTED
        | ObjectAttributes::DECRYPT;
    let public = [
        alg::ECC.to_be_bytes().to_vec(),
        alg::SHA256.to_be_bytes().to_vec(),
        attributes.to_be_bytes().to_vec(),
        vec![0, 0],
        alg::AES.to_be_bytes().to_vec(),
        128u16.to_be_bytes().to_vec(),
        alg::CFB.to_be_bytes().to_vec(),
        alg::NULL.to_be_bytes().to_vec(),
        curve::NIST_P256.to_be_bytes().to_vec(),
        alg::NULL.to_be_bytes().to_vec(),
        vec![0, 0, 0, 0],
    ]
    .concat();
    let parameters = [
        sized(&[0, 0, 0, 0]),
        sized(&public),
        vec![0, 0],
        vec![0, 0, 0, 0],
    ]
    .concat();
    let (code, v) = turn(state, cc::CreatePrimary, &[rh::OWNER], 1, &parameters);
    assert_eq!(code, rc::SUCCESS);
    v
}

#[test]
fn a_creation_ticket_is_accepted() {
    let mut state = started();
    let v = primary(&mut state);
    let object = word(&v, 0);
    let (_, at) = buffer(&v, 8);
    let (_, at) = buffer(&v, at);
    let (hash, at) = buffer(&v, at);
    let (_, end) = buffer(&v, at + 6);
    let ticket = v[at..end].to_vec();
    let ask = |hash: &[u8]| {
        [
            vec![0, 0],
            sized(hash),
            alg::NULL.to_be_bytes().to_vec(),
            ticket.clone(),
        ]
        .concat()
    };
    let (code, _) = turn(
        &mut state,
        cc::CertifyCreation,
        &[rh::NULL, object],
        1,
        &ask(&hash),
    );
    assert_eq!(code, rc::SUCCESS);
    let (code, _) = turn(
        &mut state,
        cc::CertifyCreation,
        &[rh::NULL, object],
        1,
        &ask(&[1u8; 32]),
    );
    assert_eq!(code, rc::TICKET | 0x440);
}

#[test]
fn a_saved_object_is_loaded_again() {
    let mut state = started();
    let v = primary(&mut state);
    let object = word(&v, 0);
    let (code, first) = turn(&mut state, cc::ReadPublic, &[object], 0, &[]);
    assert_eq!(code, rc::SUCCESS);
    let (code, context) = turn(&mut state, cc::ContextSave, &[object], 0, &[]);
    assert_eq!(code, rc::SUCCESS);
    let (code, _) = turn(&mut state, cc::FlushContext, &[], 0, &object.to_be_bytes());
    assert_eq!(code, rc::SUCCESS);
    let (code, v) = turn(&mut state, cc::ContextLoad, &[], 0, &context);
    assert_eq!(code, rc::SUCCESS);
    let (code, second) = turn(&mut state, cc::ReadPublic, &[word(&v, 0)], 0, &[]);
    assert_eq!(code, rc::SUCCESS);
    assert_eq!(first, second);
    let mut changed = context;
    let last = changed.len() - 1;
    changed[last] ^= 1;
    let (code, _) = turn(&mut state, cc::ContextLoad, &[], 0, &changed);
    assert_eq!(code & 0x0BF, rc::INTEGRITY);
}

#[test]
fn a_sequence_answers_as_one_hash_does() {
    let mut state = started();
    let parameters = [vec![0, 0], alg::SHA256.to_be_bytes().to_vec()].concat();
    let (code, v) = turn(&mut state, cc::HashSequenceStart, &[], 0, &parameters);
    assert_eq!(code, rc::SUCCESS);
    let handle = word(&v, 0);
    let (code, _) = turn(&mut state, cc::SequenceUpdate, &[handle], 1, &sized(b"one "));
    assert_eq!(code, rc::SUCCESS);
    let parameters = [sized(b"hash"), rh::OWNER.to_be_bytes().to_vec()].concat();
    let (code, pieces) = turn(&mut state, cc::SequenceComplete, &[handle], 1, &parameters);
    assert_eq!(code, rc::SUCCESS);
    let parameters = [
        sized(b"one hash"),
        alg::SHA256.to_be_bytes().to_vec(),
        rh::OWNER.to_be_bytes().to_vec(),
    ]
    .concat();
    let (code, whole) = turn(&mut state, cc::Hash, &[], 0, &parameters);
    assert_eq!(code, rc::SUCCESS);
    let n = word(&pieces, 0) as usize;
    assert_eq!(pieces[4..4 + n].to_vec(), whole);
}

#[test]
fn a_shorter_list_starts_a_longer_one() {
    let state = TpmState::manufacture(&[0x5a; 48]).unwrap();
    let list = |count: usize| match build_capability(&state, cap::COMMANDS, 0, count).unwrap() {
        (more, Capabilities::Command(l)) => (more, l.items),
        _ => panic!("wrong capability"),
    };
    let (all_more, all) = list(1000);
    assert!(!all_more);
    let (more, some) = list(5);
    assert!(more);
    assert_eq!(some[..], all[..5]);
}

#[test]
fn a_machine_without_power_does_not_answer() {
    let mut machine = Machine::new(TpmState::manufacture(&[0x5a; 48]).unwrap());
    let startup = [0x80, 1, 0, 0, 0, 12, 0, 0, 1, 0x44, 0, 0];
    assert!(machine.execute(0, 0, &startup).is_empty());
    machine.power_on();
    let response = machine.execute(5, 3, &startup);
    assert_eq!(word(&response, 6), rc::SUCCESS);
    assert_eq!(machine.locality, 3);
    assert!(machine.state.started);
    machine.power_on();
    assert!(machine.state.started);
    machine.power_off();
    assert!(!machine.state.started);
    assert!(machine.execute(0, 0, &startup).is_empty());
}

#[test]
fn an_event_sequence_is_measured() {
    let mut machine = Machine::new(TpmState::manufacture(&[0x5a; 48]).unwrap());
    machine.power_on();
    machine.hash_data(b"dropped");
    assert!(machine.hash_end().is_ok());
    let before = machine.state.pcr.read(alg::SHA256, 0).unwrap().to_vec();
    machine.hash_start();
    assert!(machine.established);
    machine.hash_data(b"core ");
    machine.hash_data(b"root");
    let counted = machine.state.pcr.event(0, 4, b"core root").is_ok();
    let after = machine.state.pcr.read(alg::SHA256, 0).unwrap().to_vec();
    assert!(counted);
    assert_ne!(before, after);
    let mut other = Machine::new(TpmState::manufacture(&[0x5a; 48]).unwrap());
    other.hash_start();
    other.hash_data(b"core ");
    other.hash_data(b"root");
    assert!(other.hash_end().is_ok());
    assert!(other.measured.is_none());
    assert_eq!(other.state.pcr.read(alg::SHA256, 0).unwrap().to_vec(), after);
    other.reset_established();
    assert!(!other.established);
    assert!(!other.timer_signaled(0));
}
