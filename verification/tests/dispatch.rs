//! Commands taken apart, the authorizations they carry, and what comes back in
//! the sessions of a response.

use swtrust::tpm::commands::dispatch::{
    allowed_before_startup, allowed_in_failure_mode, build_response_sessions,
    check_authorization, check_session_attributes, close_sessions, entity, first_sized_parameter,
    first_sized_parameter_at, parse, roll_response_nonces, Entity,
};
use swtrust::tpm::commands::execute::run;
use swtrust::tpm::constants::{alg, cc, hc, nt, rc, rh, se, st};
use swtrust::tpm::device::HEADER_SIZE;
use swtrust::tpm::engine::nv::NvIndex;
use swtrust::tpm::engine::object::{Object, Slot};
use swtrust::tpm::engine::session::Session;
use swtrust::tpm::engine::state::TpmState;
use swtrust::tpm::error::{TpmRc, TpmResult};
use swtrust::tpm::marshal::Writer;
use swtrust::tpm::structures::attributes::{NvAttributes, ObjectAttributes, SessionAttributes};
use swtrust::tpm::structures::auth::AuthCommand;
use swtrust::tpm::structures::base::{Tpm2bAuth, Tpm2bDigest, Tpm2bNonce, TpmtHa};
use swtrust::tpm::structures::keys::{PublicId, PublicParms, TpmtPublic};
use swtrust::tpm::structures::nv::{NvPinCounterParameters, NvPublic};
use swtrust::tpm::structures::schemes::{Scheme, SymDef};

fn manufactured() -> TpmState {
    TpmState::manufacture(&[0x5a; 48]).unwrap()
}

fn command(tag: u16, code: u32, handles: &[u32], auth: &[u8], params: &[u8]) -> Vec<u8> {
    let mut body = Writer::new();
    for h in handles {
        body.u32(*h);
    }
    if tag == st::SESSIONS {
        body.u32(auth.len() as u32);
        body.bytes(auth);
    }
    body.bytes(params);
    let body = body.finish().unwrap();

    let mut w = Writer::new();
    w.u16(tag);
    w.u32((HEADER_SIZE + body.len()) as u32);
    w.u32(code);
    w.bytes(&body);
    w.finish().unwrap()
}

fn password_auth(password: &[u8]) -> Vec<u8> {
    AuthCommand {
        session_handle: rh::RS_PW,
        nonce: Tpm2bNonce::empty(),
        session_attributes: SessionAttributes(SessionAttributes::CONTINUE_SESSION),
        hmac: Tpm2bAuth::from_slice(password).unwrap(),
    }
    .to_bytes()
}

#[test]
fn a_command_with_no_sessions_parses() {
    let state = manufactured();
    let buf = command(st::NO_SESSIONS, cc::GetRandom, &[], &[], &[0x00, 0x20]);
    let req = parse(&state, &buf, 0).unwrap();
    assert_eq!(req.code, cc::GetRandom);
    assert!(req.handles.is_empty());
    assert!(req.sessions.is_empty());
    assert_eq!(req.parameters, vec![0x00, 0x20]);
}

#[test]
fn handles_are_read_from_the_handle_area() {
    let state = manufactured();
    let auth = password_auth(b"");
    let buf = command(
        st::SESSIONS,
        cc::NV_Read,
        &[rh::OWNER, hc::NV_INDEX_FIRST],
        &auth,
        &[0x00, 0x08, 0x00, 0x00],
    );
    let req = parse(&state, &buf, 0).unwrap();
    assert_eq!(req.handles, vec![rh::OWNER, hc::NV_INDEX_FIRST]);
    assert_eq!(req.sessions.len(), 1);
    assert_eq!(req.sessions[0].handle, rh::RS_PW);
    assert_eq!(req.parameters, vec![0x00, 0x08, 0x00, 0x00]);
}

#[test]
fn an_unknown_command_code_is_refused() {
    let state = manufactured();
    let buf = command(st::NO_SESSIONS, 0x0000_0123, &[], &[], &[]);
    assert_eq!(
        parse(&state, &buf, 0).unwrap_err(),
        TpmRc(rc::COMMAND_CODE)
    );
}

#[test]
fn a_command_needing_authorization_must_carry_a_session() {
    let state = manufactured();
    let buf = command(st::NO_SESSIONS, cc::Clear, &[rh::LOCKOUT], &[], &[]);
    assert_eq!(
        parse(&state, &buf, 0).unwrap_err(),
        TpmRc(rc::AUTH_MISSING)
    );
}

#[test]
fn a_truncated_handle_area_is_insufficient() {
    let state = manufactured();
    let mut buf = command(st::NO_SESSIONS, cc::ReadPublic, &[hc::TRANSIENT_FIRST], &[], &[]);
    // Drop two octets from the handle and fix the size so the header check
    // passes but the handle area does not.
    buf.truncate(buf.len() - 2);
    let n = buf.len() as u32;
    buf[2..6].copy_from_slice(&n.to_be_bytes());
    assert_eq!(
        parse(&state, &buf, 0).unwrap_err(),
        TpmRc(rc::INSUFFICIENT)
    );
}

#[test]
fn an_authorization_area_that_is_too_small_is_refused() {
    let state = manufactured();
    let buf = command(st::SESSIONS, cc::Clear, &[rh::LOCKOUT], &[0u8; 4], &[]);
    assert_eq!(parse(&state, &buf, 0).unwrap_err(), TpmRc(rc::AUTHSIZE));
}

#[test]
fn more_than_three_sessions_are_refused() {
    let state = manufactured();
    let mut auth = Vec::new();
    for _ in 0..4 {
        auth.extend_from_slice(&password_auth(b""));
    }
    let buf = command(st::SESSIONS, cc::Clear, &[rh::LOCKOUT], &auth, &[]);
    assert_eq!(parse(&state, &buf, 0).unwrap_err(), TpmRc(rc::AUTHSIZE));
}

fn lockout_command(password: &[u8]) -> Vec<u8> {
    command(
        st::SESSIONS,
        cc::DictionaryAttackParameters,
        &[rh::LOCKOUT],
        &password_auth(password),
        &[0, 0, 0, 3, 0, 0, 0, 0, 0, 0, 0, 0],
    )
}

fn owner_command(password: &[u8]) -> Vec<u8> {
    command(
        st::SESSIONS,
        cc::Clear,
        &[rh::OWNER],
        &password_auth(password),
        &[],
    )
}

fn protected_entity(auth: &[u8]) -> Entity {
    Entity {
        name: rh::OWNER.to_be_bytes().to_vec(),
        auth: auth.to_vec(),
        policy: None,
        uses_lockout: true,
        user_with_auth: true,
        admin_with_policy: true,
        pin: None,
    }
}

#[test]
fn a_password_authorization_is_compared_against_the_entity() {
    let mut state = manufactured();
    state.lockout_auth = b"secret".to_vec();
    let buf = lockout_command(b"secret");
    let req = parse(&state, &buf, 0).unwrap();
    let e = entity(&state, rh::LOCKOUT).unwrap();
    assert!(check_authorization(&mut state, &req, 0, &e, &[0u8; 32]).is_ok());

    let buf = lockout_command(b"wrong");
    let req = parse(&state, &buf, 0).unwrap();
    let e = entity(&state, rh::LOCKOUT).unwrap();
    let err = check_authorization(&mut state, &req, 0, &e, &[0u8; 32]).unwrap_err();
    assert_eq!(err.0 & 0x03F, rc::AUTH_FAIL & 0x03F);
    assert_eq!(state.lockout.failed_tries, 1);
}

#[test]
fn a_permanent_entity_other_than_lockout_is_not_protected() {
    let state = manufactured();
    for handle in [rh::OWNER, rh::ENDORSEMENT, rh::PLATFORM, rh::NULL] {
        assert!(!entity(&state, handle).unwrap().uses_lockout, "{handle:#x}");
    }
    assert!(entity(&state, rh::LOCKOUT).unwrap().uses_lockout);
}

#[test]
fn a_padded_password_matches_the_unpadded_value() {
    let mut state = manufactured();
    state.hierarchies.owner.auth = b"pw".to_vec();
    let auth = password_auth(b"pw\0\0");
    let buf = command(st::SESSIONS, cc::Clear, &[rh::OWNER], &auth, &[]);
    let req = parse(&state, &buf, 0).unwrap();
    let e = entity(&state, rh::OWNER).unwrap();
    assert!(check_authorization(&mut state, &req, 0, &e, &[0u8; 32]).is_ok());
}

/// A session area holding the given attributes, all on loaded handles.
fn session_area(entries: &[(u32, u8)]) -> Vec<u8> {
    let mut out = Vec::new();
    for (handle, attributes) in entries {
        out.extend_from_slice(
            &AuthCommand {
                session_handle: *handle,
                nonce: Tpm2bNonce::empty(),
                session_attributes: SessionAttributes(*attributes),
                hmac: Tpm2bAuth::empty(),
            }
            .to_bytes(),
        );
    }
    out
}

#[test]
fn a_public_only_object_cannot_be_authorized() {
    let mut state = manufactured();
    let public = TpmtPublic {
        object_type: alg::KEYEDHASH,
        name_alg: alg::SHA256,
        object_attributes: ObjectAttributes(ObjectAttributes::USER_WITH_AUTH),
        auth_policy: Tpm2bDigest::empty(),
        parameters: PublicParms::KeyedHash {
            scheme: Scheme::null(),
        },
        unique: PublicId::KeyedHash(Tpm2bDigest::empty()),
    };
    let object = Object::new(public, None, rh::NULL, &[], false);
    let handle = state.objects.insert(Slot::Object(Box::new(object))).unwrap();
    assert_eq!(
        entity(&state, handle).map(|_| ()).unwrap_err(),
        TpmRc(rc::AUTH_UNAVAILABLE)
    );
}

#[test]
fn the_session_attributes_have_to_be_consistent() {
    let state = manufactured();
    let hmac = hc::HMAC_SESSION_FIRST;
    let other = hc::HMAC_SESSION_FIRST + 1;
    let cont = SessionAttributes::CONTINUE_SESSION;

    // TPM2_NV_Read has one handle that needs authorization.
    let read = |area: Vec<u8>| {
        command(
            st::SESSIONS,
            cc::NV_Read,
            &[rh::OWNER, hc::NV_INDEX_FIRST],
            &area,
            &[0x00, 0x08, 0x00, 0x00],
        )
    };

    // An authorization session may not also audit.
    let buf = read(session_area(&[(hmac, cont | SessionAttributes::AUDIT)]));
    let req = parse(&state, &buf, 0).unwrap();
    assert_eq!(
        check_session_attributes(&req).unwrap_err(),
        TpmRc(rc::ATTRIBUTES).with_session(1)
    );

    // Two sessions may not both audit.
    let buf = read(session_area(&[
        (rh::RS_PW, cont),
        (hmac, cont | SessionAttributes::AUDIT),
        (other, cont | SessionAttributes::AUDIT),
    ]));
    let req = parse(&state, &buf, 0).unwrap();
    assert_eq!(
        check_session_attributes(&req).unwrap_err(),
        TpmRc(rc::ATTRIBUTES).with_session(3)
    );

    // Two sessions may not both decrypt.
    let buf = read(session_area(&[
        (rh::RS_PW, cont),
        (hmac, cont | SessionAttributes::DECRYPT),
        (other, cont | SessionAttributes::DECRYPT),
    ]));
    let req = parse(&state, &buf, 0).unwrap();
    assert_eq!(
        check_session_attributes(&req).unwrap_err(),
        TpmRc(rc::ATTRIBUTES).with_session(3)
    );

    // A session that authorizes nothing has to ask for something.
    let buf = read(session_area(&[(rh::RS_PW, cont), (hmac, cont)]));
    let req = parse(&state, &buf, 0).unwrap();
    assert_eq!(
        check_session_attributes(&req).unwrap_err(),
        TpmRc(rc::ATTRIBUTES).with_session(2)
    );

    // A password may not encrypt, decrypt or audit.
    let buf = read(session_area(&[(
        rh::RS_PW,
        cont | SessionAttributes::ENCRYPT,
    )]));
    let req = parse(&state, &buf, 0).unwrap();
    assert_eq!(
        check_session_attributes(&req).unwrap_err(),
        TpmRc(rc::ATTRIBUTES).with_session(1)
    );

    // One authorization and one session that encrypts the response is the
    // ordinary arrangement.
    let buf = read(session_area(&[
        (rh::RS_PW, cont),
        (hmac, cont | SessionAttributes::ENCRYPT),
    ]));
    let req = parse(&state, &buf, 0).unwrap();
    check_session_attributes(&req).unwrap();
}

#[test]
fn a_session_area_is_refused_where_the_tag_must_be_no_sessions() {
    let state = manufactured();
    let auth = password_auth(b"");
    for code in [
        cc::Startup,
        cc::ContextSave,
        cc::ContextLoad,
        cc::FlushContext,
    ] {
        let buf = command(st::SESSIONS, code, &[], &auth, &[]);
        assert_eq!(parse(&state, &buf, 0).unwrap_err(), TpmRc(rc::AUTH_CONTEXT));
    }
    // TPM2_ReadClock does take an audit session, so it is not refused.
    let buf = command(st::SESSIONS, cc::ReadClock, &[], &auth, &[]);
    assert!(parse(&state, &buf, 0).is_ok());
}

#[test]
fn repeated_failures_enter_lockout() {
    let mut state = manufactured();
    state.hierarchies.owner.auth = b"secret".to_vec();
    state.lockout.max_tries = 3;
    let buf = owner_command(b"wrong");
    for _ in 0..3 {
        let req = parse(&state, &buf, 0).unwrap();
        let e = protected_entity(b"secret");
        let _ = check_authorization(&mut state, &req, 0, &e, &[0u8; 32]);
    }
    assert!(state.lockout.locked_out());

    let buf = owner_command(b"secret");
    let req = parse(&state, &buf, 0).unwrap();
    let e = protected_entity(b"secret");
    assert_eq!(
        check_authorization(&mut state, &req, 0, &e, &[0u8; 32]).unwrap_err(),
        TpmRc(rc::LOCKOUT)
    );

    state.lockout.failed_tries = 0;
    let req = parse(&state, &buf, 0).unwrap();
    let e = protected_entity(b"secret");
    check_authorization(&mut state, &req, 0, &e, &[0u8; 32]).unwrap();
    assert_eq!(state.lockout.failed_tries, 0);
}

fn pin_index(kind: u8, count: u32, limit: u32) -> NvIndex {
    let mut index = NvIndex {
        public: NvPublic {
            nv_index: hc::NV_INDEX_FIRST,
            name_alg: alg::SHA256,
            attributes: NvAttributes(NvAttributes::AUTHREAD | NvAttributes::OWNERWRITE)
                .with_index_type(kind),
            auth_policy: Tpm2bDigest::empty(),
            data_size: 8,
        },
        auth: b"pin".to_vec(),
        data: Vec::new(),
        read_locked: false,
        write_locked: false,
    };
    index
        .set_pin_counters(NvPinCounterParameters {
            pin_count: count,
            pin_limit: limit,
        })
        .unwrap();
    index
}

fn pin_attempt(state: &mut TpmState, password: &[u8]) -> TpmResult<()> {
    let auth = password_auth(password);
    let buf = command(
        st::SESSIONS,
        cc::PolicySecret,
        &[hc::NV_INDEX_FIRST, hc::POLICY_SESSION_FIRST],
        &auth,
        &[],
    );
    let req = parse(state, &buf, 0).unwrap();
    let e = entity(state, hc::NV_INDEX_FIRST).unwrap();
    check_authorization(state, &req, 0, &e, &[0u8; 32])
}

#[test]
fn a_pin_pass_index_counts_its_successes() {
    let mut state = manufactured();
    state
        .nv
        .define(pin_index(nt::PIN_PASS, 0, 2))
        .unwrap();
    pin_attempt(&mut state, b"pin").expect("the first use was refused");
    pin_attempt(&mut state, b"pin").expect("the second use was refused");
    assert_eq!(
        state
            .nv
            .get(hc::NV_INDEX_FIRST)
            .unwrap()
            .pin_counters()
            .unwrap()
            .pin_count,
        2
    );
    assert!(
        pin_attempt(&mut state, b"pin").is_err(),
        "a third use was allowed past the limit"
    );
}

#[test]
fn a_pin_fail_index_counts_its_failures_and_forgets_them_on_success() {
    let mut state = manufactured();
    state
        .nv
        .define(pin_index(nt::PIN_FAIL, 0, 2))
        .unwrap();
    assert!(pin_attempt(&mut state, b"wrong").is_err());
    assert_eq!(
        state
            .nv
            .get(hc::NV_INDEX_FIRST)
            .unwrap()
            .pin_counters()
            .unwrap()
            .pin_count,
        1,
        "a failure was not counted"
    );
    pin_attempt(&mut state, b"pin").expect("the right value was refused");
    assert_eq!(
        state
            .nv
            .get(hc::NV_INDEX_FIRST)
            .unwrap()
            .pin_counters()
            .unwrap()
            .pin_count,
        0,
        "a success did not clear the count"
    );
}

#[test]
fn a_pin_index_may_not_be_a_bind_entity() {
    let mut state = manufactured();
    state.on_startup_clear(0).unwrap();
    state.nv.define(pin_index(nt::PIN_PASS, 0, 5)).unwrap();

    let mut p = Writer::new();
    p.u16(32);
    p.bytes(&[0u8; 32]);
    p.u16(0);
    p.u8(se::HMAC);
    p.u16(alg::NULL);
    p.u16(alg::SHA256);
    let buf = command(
        st::NO_SESSIONS,
        cc::StartAuthSession,
        &[rh::NULL, hc::NV_INDEX_FIRST],
        &[],
        &p.finish().unwrap(),
    );
    let r = run(&mut state, 0, &buf);
    let code = u32::from_be_bytes([r[6], r[7], r[8], r[9]]);
    assert_eq!(
        code & 0x03f,
        rc::HANDLE & 0x03f,
        "a PIN Index was bound to a session -> {code:08x}"
    );
}

#[test]
fn a_pin_index_that_was_never_written_authorizes_nothing() {
    let mut state = manufactured();
    state
        .nv
        .define(NvIndex {
            public: NvPublic {
                nv_index: hc::NV_INDEX_FIRST,
                name_alg: alg::SHA256,
                attributes: NvAttributes(NvAttributes::AUTHREAD | NvAttributes::OWNERWRITE)
                    .with_index_type(nt::PIN_PASS),
                auth_policy: Tpm2bDigest::empty(),
                data_size: 8,
            },
            auth: b"pin".to_vec(),
            data: Vec::new(),
            read_locked: false,
            write_locked: false,
        })
        .unwrap();
    assert!(
        pin_attempt(&mut state, b"pin").is_err(),
        "an Index with nothing written authorized something"
    );
}

#[test]
fn a_failure_against_lockout_auth_bars_it_by_itself() {
    let mut state = manufactured();
    state.lockout_auth = b"secret".to_vec();
    state.lockout.max_tries = 100;
    let buf = lockout_command(b"wrong");
    let req = parse(&state, &buf, 0).unwrap();
    let e = entity(&state, rh::LOCKOUT).unwrap();
    let _ = check_authorization(&mut state, &req, 0, &e, &[0u8; 32]);
    assert!(state.lockout.in_lockout, "the special lockout was not entered");
    assert!(!state.lockout.locked_out(), "lockout mode was entered as well");

    let buf = lockout_command(b"secret");
    let req = parse(&state, &buf, 0).unwrap();
    let e = entity(&state, rh::LOCKOUT).unwrap();
    assert_eq!(
        check_authorization(&mut state, &req, 0, &e, &[0u8; 32]).unwrap_err(),
        TpmRc(rc::LOCKOUT)
    );

    // Another entity is not barred by it.
    state.hierarchies.owner.auth = b"other".to_vec();
    let buf = owner_command(b"other");
    let req = parse(&state, &buf, 0).unwrap();
    let e = entity(&state, rh::OWNER).unwrap();
    check_authorization(&mut state, &req, 0, &e, &[0u8; 32])
        .expect("the special lockout barred another entity");
}

#[test]
fn lockout_stops_a_policy_that_calls_for_the_auth_value() {
    let mut state = manufactured();
    state.lockout_auth = b"secret".to_vec();
    state.lockout_policy = TpmtHa {
        hash_alg: alg::SHA256,
        digest: vec![0u8; 32],
    };
    state.lockout.in_lockout = true;

    let handle = state.sessions.allocate_handle(se::POLICY).unwrap();
    let s = Session::new(
        handle,
        se::POLICY,
        alg::SHA256,
        vec![0u8; 32],
        vec![0u8; 32],
        Vec::new(),
        rh::NULL,
        Vec::new(),
        SymDef::null(),
    )
    .unwrap();
    state.sessions.insert(s).unwrap();

    let auth = AuthCommand {
        session_handle: handle,
        nonce: Tpm2bNonce::new(vec![0u8; 32]).unwrap(),
        session_attributes: SessionAttributes(SessionAttributes::CONTINUE_SESSION),
        hmac: Tpm2bAuth::empty(),
    }
    .to_bytes();
    let buf = command(
        st::SESSIONS,
        cc::DictionaryAttackParameters,
        &[rh::LOCKOUT],
        &auth,
        &[0, 0, 0, 3, 0, 0, 0, 0, 0, 0, 0, 0],
    );

    // A policy that never calls for the authValue uses no protected value,
    // so Lockout mode does not reach it. The satisfied policy authorizes.
    let req = parse(&state, &buf, 0).unwrap();
    let e = entity(&state, rh::LOCKOUT).unwrap();
    check_authorization(&mut state, &req, 0, &e, &[0u8; 32]).unwrap();

    // A policy that called TPM2_PolicyAuthValue does use it.
    state
        .sessions
        .get_mut(handle)
        .unwrap()
        .policy
        .auth_value_needed = true;
    let req = parse(&state, &buf, 0).unwrap();
    let e = entity(&state, rh::LOCKOUT).unwrap();
    assert_eq!(
        check_authorization(&mut state, &req, 0, &e, &[0u8; 32]).unwrap_err(),
        TpmRc(rc::LOCKOUT)
    );
}

#[test]
fn lockout_follows_a_session_bound_to_a_protected_entity() {
    let mut state = manufactured();
    state.lockout.in_lockout = true;

    let handle = state.sessions.allocate_handle(se::HMAC).unwrap();
    let mut s = Session::new(
        handle,
        se::HMAC,
        alg::SHA256,
        vec![0u8; 32],
        vec![0u8; 32],
        Vec::new(),
        hc::TRANSIENT_FIRST,
        b"bound".to_vec(),
        SymDef::null(),
    )
    .unwrap();
    s.bind_uses_lockout = true;
    state.sessions.insert(s).unwrap();
    state.lockout.failed_tries = state.lockout.max_tries;

    let auth = AuthCommand {
        session_handle: handle,
        nonce: Tpm2bNonce::new(vec![0u8; 32]).unwrap(),
        session_attributes: SessionAttributes(SessionAttributes::CONTINUE_SESSION),
        hmac: Tpm2bAuth::empty(),
    }
    .to_bytes();
    let buf = command(st::SESSIONS, cc::Clear, &[rh::PLATFORM], &auth, &[]);
    let req = parse(&state, &buf, 0).unwrap();
    let e = entity(&state, rh::PLATFORM).unwrap();
    assert!(!e.uses_lockout);
    assert_eq!(
        check_authorization(&mut state, &req, 0, &e, &[0u8; 32]).unwrap_err(),
        TpmRc(rc::LOCKOUT)
    );
}

#[test]
fn a_successful_authorization_does_not_reset_the_counter() {
    // Guessing against a protected entity, then succeeding against an
    // exempt one, must not clear the dictionary attack counter.
    let mut state = manufactured();
    state.hierarchies.owner.auth = b"secret".to_vec();
    state.hierarchies.platform.auth = b"known".to_vec();

    let buf = owner_command(b"wrong");
    let req = parse(&state, &buf, 0).unwrap();
    let e = protected_entity(b"secret");
    let _ = check_authorization(&mut state, &req, 0, &e, &[0u8; 32]);
    assert_eq!(state.lockout.failed_tries, 1);

    // The platform hierarchy is exempt from the counter.
    let auth = password_auth(b"known");
    let buf = command(st::SESSIONS, cc::Clear, &[rh::PLATFORM], &auth, &[]);
    let req = parse(&state, &buf, 0).unwrap();
    let e = entity(&state, rh::PLATFORM).unwrap();
    assert!(!e.uses_lockout);
    check_authorization(&mut state, &req, 0, &e, &[0u8; 32]).unwrap();
    assert_eq!(
        state.lockout.failed_tries, 1,
        "an exempt success cleared the counter"
    );

    let buf = owner_command(b"secret");
    let req = parse(&state, &buf, 0).unwrap();
    let e = protected_entity(b"secret");
    check_authorization(&mut state, &req, 0, &e, &[0u8; 32]).unwrap();
    assert_eq!(
        state.lockout.failed_tries, 1,
        "a success put the counter back"
    );
}

#[test]
fn a_bound_session_carries_the_protection_of_its_bind_entity() {
    let mut state = manufactured();
    state.hierarchies.platform.auth = b"known".to_vec();

    let handle = state.sessions.allocate_handle(se::HMAC).unwrap();
    let mut s = Session::new(
        handle,
        se::HMAC,
        alg::SHA256,
        vec![0u8; 32],
        vec![0u8; 32],
        vec![9u8; 32],
        hc::TRANSIENT_FIRST,
        b"bound".to_vec(),
        SymDef::null(),
    )
    .unwrap();
    s.bind_uses_lockout = true;
    state.sessions.insert(s).unwrap();

    let auth = AuthCommand {
        session_handle: handle,
        nonce: Tpm2bNonce::new(vec![0u8; 32]).unwrap(),
        session_attributes: SessionAttributes(SessionAttributes::CONTINUE_SESSION),
        hmac: Tpm2bAuth::new(vec![0u8; 32]).unwrap(),
    }
    .to_bytes();
    let buf = command(st::SESSIONS, cc::Clear, &[rh::PLATFORM], &auth, &[]);
    let req = parse(&state, &buf, 0).unwrap();
    let e = entity(&state, rh::PLATFORM).unwrap();
    assert!(!e.uses_lockout);
    assert!(check_authorization(&mut state, &req, 0, &e, &[0u8; 32]).is_err());
    assert_eq!(state.lockout.failed_tries, 1);
}

#[test]
fn a_sized_parameter_can_be_located_by_position() {
    // Two TPM2B values followed by trailing octets.
    let params = [0x00u8, 0x02, 1, 2, 0x00, 0x03, 3, 4, 5, 9, 9];
    assert_eq!(
        first_sized_parameter_at(&params, 0),
        Some(vec![1u8, 2])
    );
    assert_eq!(
        first_sized_parameter_at(&params, 1),
        Some(vec![3u8, 4, 5])
    );
    assert_eq!(first_sized_parameter_at(&params, 5), None);
}

#[test]
fn a_no_da_entity_does_not_count_against_the_lockout() {
    let mut state = manufactured();
    state.hierarchies.owner.auth = b"secret".to_vec();
    let auth = password_auth(b"wrong");
    let buf = command(st::SESSIONS, cc::Clear, &[rh::OWNER], &auth, &[]);
    let req = parse(&state, &buf, 0).unwrap();
    let mut e = entity(&state, rh::OWNER).unwrap();
    e.uses_lockout = false;
    let _ = check_authorization(&mut state, &req, 0, &e, &[0u8; 32]);
    assert_eq!(state.lockout.failed_tries, 0);
}

#[test]
fn the_response_session_area_carries_a_fresh_nonce() {
    let mut state = manufactured();
    let auth = password_auth(b"");
    let buf = command(st::SESSIONS, cc::Clear, &[rh::OWNER], &auth, &[]);
    let req = parse(&state, &buf, 0).unwrap();
    let nonces = roll_response_nonces(&mut state, &req).unwrap();
    let area =
        build_response_sessions(&state, &req, rc::SUCCESS, &[], &nonces, &[]).unwrap();
    // A password session answers with empty nonce and HMAC.
    assert_eq!(area, vec![0x00, 0x00, 0x01, 0x00, 0x00]);
}

#[test]
fn sessions_without_continue_are_closed() {
    let mut state = manufactured();
    let handle = state.sessions.allocate_handle(se::HMAC).unwrap();
    let s = Session::new(
        handle,
        se::HMAC,
        alg::SHA256,
        vec![0u8; 32],
        vec![0u8; 32],
        Vec::new(),
        rh::NULL,
        Vec::new(),
        SymDef::null(),
    )
    .unwrap();
    state.sessions.insert(s).unwrap();

    let auth = AuthCommand {
        session_handle: handle,
        nonce: Tpm2bNonce::from_slice(&[0u8; 32]).unwrap(),
        session_attributes: SessionAttributes(0),
        hmac: Tpm2bAuth::empty(),
    }
    .to_bytes();
    let buf = command(st::SESSIONS, cc::Clear, &[rh::OWNER], &auth, &[]);
    let req = parse(&state, &buf, 0).unwrap();
    close_sessions(&mut state, &req);
    assert!(!state.sessions.contains(handle));
}

#[test]
fn the_first_sized_parameter_is_located() {
    assert_eq!(
        first_sized_parameter(&[0x00, 0x03, 1, 2, 3, 9, 9]),
        Some(vec![1u8, 2, 3])
    );
    assert_eq!(first_sized_parameter(&[0x00, 0x03, 1, 2]), None);
    assert_eq!(first_sized_parameter(&[0x00]), None);
    assert_eq!(first_sized_parameter(&[0x00, 0x00]), Some(Vec::new()));
}

#[test]
fn commands_allowed_before_startup_and_in_failure_mode() {
    assert!(allowed_before_startup(cc::Startup));
    assert!(!allowed_before_startup(cc::GetRandom));
    assert!(allowed_in_failure_mode(cc::GetTestResult));
    assert!(allowed_in_failure_mode(cc::GetCapability));
    assert!(!allowed_in_failure_mode(cc::Create));
}
