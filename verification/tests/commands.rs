//! Whole commands, from the octets of a command to those of its response.

use swtrust::tpm::commands::execute::run;
use swtrust::tpm::commands::management::is_pp_eligible;
use swtrust::tpm::constants::{alg, cc, hc, rc, rh, se, st, su};
use swtrust::tpm::crypto::hash;
use swtrust::tpm::device::HEADER_SIZE;
use swtrust::tpm::engine::session::Session;
use swtrust::tpm::engine::state::TpmState;
use swtrust::tpm::error::TpmRc;
use swtrust::tpm::marshal::Writer;
use swtrust::tpm::structures::attributes::SessionAttributes;
use swtrust::tpm::structures::auth::AuthCommand;
use swtrust::tpm::structures::base::{Tpm2bAuth, Tpm2bNonce};
use swtrust::tpm::structures::schemes::SymDef;

fn manufactured() -> TpmState {
    TpmState::manufacture(&[0x5a; 48]).unwrap()
}

fn startup(su_type: u16) -> Vec<u8> {
    let mut w = Writer::new();
    w.u16(st::NO_SESSIONS);
    w.u32(12);
    w.u32(cc::Startup);
    w.u16(su_type);
    w.finish().unwrap()
}

fn get_random(bytes: u16) -> Vec<u8> {
    let mut w = Writer::new();
    w.u16(st::NO_SESSIONS);
    w.u32(12);
    w.u32(cc::GetRandom);
    w.u16(bytes);
    w.finish().unwrap()
}

fn response_code(buf: &[u8]) -> u32 {
    u32::from_be_bytes([buf[6], buf[7], buf[8], buf[9]])
}

fn load_hmac_session(state: &mut TpmState) -> u32 {
    let handle = state.sessions.allocate_handle(se::HMAC).unwrap();
    let s = Session::new(
        handle,
        se::HMAC,
        alg::SHA256,
        vec![0u8; 32],
        vec![0u8; 32],
        Vec::new(),
        rh::NULL,
        Vec::new(),
        SymDef::null(),
    )
    .unwrap();
    state.sessions.insert(s).unwrap()
}

/// A command with no handles carrying one session with these attributes.
fn audited(code: u32, handle: u32, attributes: u8, parameters: &[u8]) -> Vec<u8> {
    let auth = AuthCommand {
        session_handle: handle,
        nonce: Tpm2bNonce::new(vec![0u8; 32]).unwrap(),
        session_attributes: SessionAttributes(attributes),
        hmac: Tpm2bAuth::empty(),
    }
    .to_bytes();

    let mut body = Writer::new();
    body.u32(auth.len() as u32);
    body.bytes(&auth);
    body.bytes(parameters);
    let body = body.finish().unwrap();

    let mut w = Writer::new();
    w.u16(st::SESSIONS);
    w.u32((HEADER_SIZE + body.len()) as u32);
    w.u32(code);
    w.bytes(&body);
    w.finish().unwrap()
}

/// TPM2_GetRandom carrying one session with the given attributes.
fn get_random_audited(handle: u32, attributes: u8) -> Vec<u8> {
    audited(cc::GetRandom, handle, attributes, &[0x00, 0x08])
}

/// TPM2_GetTestResult, whose response is the same every time it runs.
fn get_test_result_audited(handle: u32, attributes: u8) -> Vec<u8> {
    audited(cc::GetTestResult, handle, attributes, &[])
}

/// The session attributes the TPM echoed in the first response session.
fn response_session_attributes(buf: &[u8]) -> u8 {
    // header, parameterSize, the sized random buffer, then the session.
    let parameter_size =
        u32::from_be_bytes([buf[10], buf[11], buf[12], buf[13]]) as usize;
    let session = &buf[14 + parameter_size..];
    let nonce_size = u16::from_be_bytes([session[0], session[1]]) as usize;
    session[2 + nonce_size]
}

#[test]
fn only_startup_is_accepted_before_startup() {
    let mut state = manufactured();
    let r = run(&mut state, 0, &get_random(8));
    assert_eq!(response_code(&r), rc::INITIALIZE);

    let r = run(&mut state, 0, &startup(su::CLEAR));
    assert_eq!(response_code(&r), rc::SUCCESS);
    assert!(state.started);
}

#[test]
fn startup_twice_is_refused() {
    let mut state = manufactured();
    run(&mut state, 0, &startup(su::CLEAR));
    let r = run(&mut state, 0, &startup(su::CLEAR));
    assert_eq!(response_code(&r), rc::INITIALIZE);
}

#[test]
fn a_command_answering_tpm_rc_failure_enters_failure_mode() {
    let mut state = manufactured();
    run(&mut state, 0, &startup(su::CLEAR));
    assert!(!state.failure_mode);

    // An exhausted generator is a failure the caller can reach.
    state.rng.set_reseed_counter(u64::MAX);
    let r = run(&mut state, 0, &get_random(8));
    assert_eq!(response_code(&r), rc::FAILURE);
    assert!(state.failure_mode, "failure mode was not entered");
    assert!(!state.self_test_done);
    assert!(state.test_failure.is_some());

    // Nothing cryptographic runs afterwards, and reporting still does.
    let r = run(&mut state, 0, &get_random(8));
    assert_eq!(response_code(&r), rc::FAILURE);
    let mut w = Writer::new();
    w.u16(st::NO_SESSIONS);
    w.u32(10);
    w.u32(cc::GetTestResult);
    let r = run(&mut state, 0, &w.finish().unwrap());
    assert_eq!(response_code(&r), rc::SUCCESS);
}

#[test]
fn failure_mode_leaves_only_the_reporting_commands() {
    let mut state = manufactured();
    run(&mut state, 0, &startup(su::CLEAR));
    state.failure_mode = true;
    let r = run(&mut state, 0, &get_random(8));
    assert_eq!(response_code(&r), rc::FAILURE);

    let mut w = Writer::new();
    w.u16(st::NO_SESSIONS);
    w.u32(10);
    w.u32(cc::GetTestResult);
    let r = run(&mut state, 0, &w.finish().unwrap());
    assert_eq!(response_code(&r), rc::SUCCESS);
}

#[test]
fn an_unknown_command_is_reported() {
    let mut state = manufactured();
    run(&mut state, 0, &startup(su::CLEAR));
    let mut w = Writer::new();
    w.u16(st::NO_SESSIONS);
    w.u32(10);
    w.u32(0x0000_0123);
    let r = run(&mut state, 0, &w.finish().unwrap());
    assert_eq!(response_code(&r), rc::COMMAND_CODE);
}

#[test]
fn an_audit_session_records_the_command_and_becomes_exclusive() {
    let mut state = manufactured();
    run(&mut state, 0, &startup(su::CLEAR));
    let handle = load_hmac_session(&mut state);

    let attributes = SessionAttributes::CONTINUE_SESSION | SessionAttributes::AUDIT;
    let r = run(&mut state, 0, &get_random_audited(handle, attributes));
    assert_eq!(response_code(&r), rc::SUCCESS);

    let s = state.sessions.get(handle).unwrap();
    assert!(s.audit.is_audit);
    assert_eq!(s.audit.digest.len(), 32);
    assert_eq!(state.audit.exclusive_session, handle);
    assert_eq!(
        response_session_attributes(&r) & SessionAttributes::AUDIT_EXCLUSIVE,
        SessionAttributes::AUDIT_EXCLUSIVE
    );

    // A second audited command extends the same digest.
    let first = s.audit.digest.clone();
    run(&mut state, 0, &get_random_audited(handle, attributes));
    assert_ne!(state.sessions.get(handle).unwrap().audit.digest, first);
}

#[test]
fn an_unaudited_command_takes_the_exclusive_status_away() {
    let mut state = manufactured();
    run(&mut state, 0, &startup(su::CLEAR));
    let handle = load_hmac_session(&mut state);
    let attributes = SessionAttributes::CONTINUE_SESSION | SessionAttributes::AUDIT;
    run(&mut state, 0, &get_random_audited(handle, attributes));
    assert_eq!(state.audit.exclusive_session, handle);

    // TPM2_GetRandom is auditable, so running it without the session ends
    // the exclusive run.
    run(&mut state, 0, &get_random(8));
    assert_eq!(state.audit.exclusive_session, rh::UNASSIGNED);

    let exclusive = attributes | SessionAttributes::AUDIT_EXCLUSIVE;
    let r = run(&mut state, 0, &get_random_audited(handle, exclusive));
    assert_eq!(response_code(&r), rc::EXCLUSIVE);
    assert!(state.sessions.get(handle).unwrap().audit.is_audit);
}

#[test]
fn a_policy_session_may_not_audit() {
    let mut state = manufactured();
    run(&mut state, 0, &startup(su::CLEAR));
    let handle = state.sessions.allocate_handle(se::POLICY).unwrap();
    let s = Session::new(
        handle,
        se::POLICY,
        alg::SHA256,
        vec![0u8; 32],
        vec![0u8; 32],
        Vec::new(),
        rh::NULL,
        Vec::new(),
        SymDef::null(),
    )
    .unwrap();
    state.sessions.insert(s).unwrap();

    let attributes = SessionAttributes::CONTINUE_SESSION | SessionAttributes::AUDIT;
    let r = run(&mut state, 0, &get_random_audited(handle, attributes));
    assert_eq!(
        response_code(&r),
        TpmRc(rc::ATTRIBUTES).with_session(1).0
    );
}

#[test]
fn audit_reset_starts_the_digest_again() {
    let mut state = manufactured();
    run(&mut state, 0, &startup(su::CLEAR));
    let handle = load_hmac_session(&mut state);
    let attributes = SessionAttributes::CONTINUE_SESSION | SessionAttributes::AUDIT;
    run(&mut state, 0, &get_test_result_audited(handle, attributes));
    let first = state.sessions.get(handle).unwrap().audit.digest.clone();
    run(&mut state, 0, &get_test_result_audited(handle, attributes));
    assert_ne!(state.sessions.get(handle).unwrap().audit.digest, first);

    // TPM2_GetTestResult answers the same way every time, so a reset puts
    // the digest back to what the first audit of it produced.
    let reset = attributes | SessionAttributes::AUDIT_RESET;
    run(&mut state, 0, &get_test_result_audited(handle, reset));
    assert_eq!(state.sessions.get(handle).unwrap().audit.digest, first);
}

#[test]
fn command_audit_records_the_selected_commands_only() {
    let mut state = manufactured();
    run(&mut state, 0, &startup(su::CLEAR));
    assert!(state.audit.digest.is_empty());
    assert_eq!(state.audit.counter, 0);

    // TPM2_GetRandom is not in the list a manufactured TPM starts with.
    run(&mut state, 0, &get_random(8));
    assert!(state.audit.digest.is_empty());

    state.audit.commands.push(cc::GetRandom);
    run(&mut state, 0, &get_random(8));
    assert_eq!(
        state.audit.digest.len(),
        hash::digest_size(state.audit.alg).unwrap()
    );
    assert_eq!(state.audit.counter, 1);

    // A second command extends the same log without counting again.
    let first = state.audit.digest.clone();
    run(&mut state, 0, &get_random(8));
    assert_ne!(state.audit.digest, first);
    assert_eq!(state.audit.counter, 1);
}

#[test]
fn flushing_an_audit_session_by_alias_clears_its_exclusivity() {
    let mut state = manufactured();
    run(&mut state, 0, &startup(su::CLEAR));
    let handle = load_hmac_session(&mut state);
    let attributes = SessionAttributes::CONTINUE_SESSION | SessionAttributes::AUDIT;
    run(&mut state, 0, &get_random_audited(handle, attributes));
    assert_eq!(state.audit.exclusive_session, handle);

    let aliased = 0x2000_0000 | (handle & 0x00FF_FFFF);
    let mut p = Writer::new();
    p.u32(aliased);
    let mut w = Writer::new();
    let body = p.finish().unwrap();
    w.u16(st::NO_SESSIONS);
    w.u32((HEADER_SIZE + body.len()) as u32);
    w.u32(cc::FlushContext);
    w.bytes(&body);
    let r = run(&mut state, 0, &w.finish().unwrap());
    assert_eq!(response_code(&r), rc::SUCCESS, "FlushContext -> {:08x}", response_code(&r));
    assert_eq!(
        state.audit.exclusive_session, rh::UNASSIGNED,
        "the flushed session still holds exclusivity"
    );
}

#[test]
fn a_failed_authorization_still_counts_against_the_lockout() {
    let mut state = manufactured();
    run(&mut state, 0, &startup(su::CLEAR));
    state.lockout_auth = b"secret".to_vec();

    let mut auth = Writer::new();
    auth.u32(rh::RS_PW);
    auth.u16(0);
    auth.u8(0x01);
    auth.u16(5);
    auth.bytes(b"wrong");
    let auth = auth.finish().unwrap();

    let mut body = Writer::new();
    body.u32(rh::LOCKOUT);
    body.u32(auth.len() as u32);
    body.bytes(&auth);
    let body = body.finish().unwrap();

    let mut w = Writer::new();
    w.u16(st::SESSIONS);
    w.u32((HEADER_SIZE + body.len()) as u32);
    w.u32(cc::DictionaryAttackLockReset);
    w.bytes(&body);
    let buf = w.finish().unwrap();

    assert_eq!(state.lockout.failed_tries, 0);
    let r = run(&mut state, 0, &buf);
    assert_eq!(response_code(&r) & 0x03f, rc::AUTH_FAIL & 0x03f);
    assert_eq!(
        state.lockout.failed_tries, 1,
        "the failure count was rolled back with the command"
    );
}

#[test]
fn a_failed_command_leaves_the_state_alone() {
    let mut state = manufactured();
    run(&mut state, 0, &startup(su::CLEAR));
    let before = state.pcr.read(alg::SHA256, 0).unwrap().to_vec();
    let counter = state.pcr.update_counter();

    // TPM2_PCR_Extend with a digest that is too short for the bank fails
    // after the command has begun reading its parameters.
    let mut auth = Writer::new();
    auth.u32(rh::RS_PW);
    auth.u16(0);
    auth.u8(0x01);
    auth.u16(0);
    let auth = auth.finish().unwrap();

    let mut params = Writer::new();
    params.u32(1);
    params.u16(alg::SHA256);
    params.bytes(&[0x11u8; 20]);
    let params = params.finish().unwrap();

    let mut body = Writer::new();
    body.u32(hc::PCR_FIRST);
    body.u32(auth.len() as u32);
    body.bytes(&auth);
    body.bytes(&params);
    let body = body.finish().unwrap();

    let mut w = Writer::new();
    w.u16(st::SESSIONS);
    w.u32((HEADER_SIZE + body.len()) as u32);
    w.u32(cc::PCR_Extend);
    w.bytes(&body);
    let r = run(&mut state, 0, &w.finish().unwrap());
    assert_ne!(response_code(&r), rc::SUCCESS);
    assert_eq!(state.pcr.read(alg::SHA256, 0).unwrap(), before);
    assert_eq!(state.pcr.update_counter(), counter);
}

#[test]
fn a_command_needing_physical_presence_is_gated() {
    let mut state = manufactured();
    run(&mut state, 0, &startup(su::CLEAR));
    state.pp_commands.push(cc::ClearControl);

    let clear_control = |handle: u32| -> Vec<u8> {
        let mut auth = Writer::new();
        auth.u32(rh::RS_PW);
        auth.u16(0);
        auth.u8(0x01);
        auth.u16(0);
        let auth = auth.finish().unwrap();

        let mut body = Writer::new();
        body.u32(handle);
        body.u32(auth.len() as u32);
        body.bytes(&auth);
        body.u8(0); // disable
        let body = body.finish().unwrap();

        let mut w = Writer::new();
        w.u16(st::SESSIONS);
        w.u32((HEADER_SIZE + body.len()) as u32);
        w.u32(cc::ClearControl);
        w.bytes(&body);
        w.finish().unwrap()
    };

    let r = run(&mut state, 0, &clear_control(rh::PLATFORM));
    assert_eq!(response_code(&r), rc::PP);
    // TPM_RH_LOCKOUT also authorizes this command, and the list does not
    // reach it. Whatever else that authorization has to satisfy, physical
    // presence is not part of it.
    let r = run(&mut state, 0, &clear_control(rh::LOCKOUT));
    assert_ne!(response_code(&r), rc::PP);

    state.physical_presence = true;
    let r = run(&mut state, 0, &clear_control(rh::PLATFORM));
    assert_eq!(response_code(&r), rc::SUCCESS);
}

#[test]
fn only_the_commands_the_schematics_mark_may_be_gated() {
    for code in [
        cc::ChangePPS,
        cc::NV_DefineSpace,
        cc::Clear,
        cc::ClearControl,
        cc::CreatePrimary,
        cc::CreateLoaded,
        cc::HierarchyChangeAuth,
        cc::SetPrimaryPolicy,
        cc::NV_UndefineSpaceSpecial,
        cc::SetCommandCodeAuditStatus,
        cc::PCR_Allocate,
        cc::ClockSet,
    ] {
        assert!(is_pp_eligible(code), "{code:#010x} carries +{{PP}}");
    }

    assert!(!is_pp_eligible(cc::PP_Commands));
    assert!(!is_pp_eligible(cc::NV_Read));
    assert!(!is_pp_eligible(cc::GetRandom));
    assert!(!is_pp_eligible(0x2000_0000));
}
