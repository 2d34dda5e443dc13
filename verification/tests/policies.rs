//! Policy sessions, authorization tickets and the comparisons of values.

use swtrust::tpm::commands::policy::{
    authorization_ticket_hmac, authorization_timeout, check_cp_hash, compare, is_session_hash,
    record_expiration, session_type_name, set_cp_hash, ticket_hierarchy, timeout_value,
};
use swtrust::tpm::constants::{alg, eo, hc, rc, rh, se, st, su};
use swtrust::tpm::engine::nv::NvIndex;
use swtrust::tpm::engine::session::Session;
use swtrust::tpm::engine::state::TpmState;
use swtrust::tpm::error::TpmRc;
use swtrust::tpm::structures::attributes::NvAttributes;
use swtrust::tpm::structures::base::Tpm2bDigest;
use swtrust::tpm::structures::nv::NvPublic;
use swtrust::tpm::structures::schemes::SymDef;

fn manufactured() -> TpmState {
    TpmState::manufacture(&[0x5a; 48]).unwrap()
}

/// A policy session with nothing asserted yet.
fn empty_policy_session() -> Session {
    Session::new(
        hc::POLICY_SESSION_FIRST,
        se::POLICY,
        alg::SHA256,
        vec![0u8; 32],
        vec![0u8; 32],
        Vec::new(),
        rh::NULL,
        Vec::new(),
        SymDef::null(),
    )
    .unwrap()
}

#[test]
fn a_command_restriction_may_not_be_replaced() {
    let mut s = empty_policy_session();

    // An empty cpHashA leaves the session unrestricted.
    check_cp_hash(&s, &[]).unwrap();
    set_cp_hash(&mut s, &[]);
    assert!(s.policy.cp_hash.is_none());

    check_cp_hash(&s, &[1u8; 32]).unwrap();
    set_cp_hash(&mut s, &[1u8; 32]);
    assert_eq!(s.policy.cp_hash.as_deref(), Some(&[1u8; 32][..]));

    assert_eq!(check_cp_hash(&s, &[2u8; 32]).unwrap_err(), TpmRc(rc::CPHASH));
    assert_eq!(s.policy.cp_hash.as_deref(), Some(&[1u8; 32][..]));

    // Repeating the same one is allowed.
    check_cp_hash(&s, &[1u8; 32]).unwrap();

    // A value that is not the size of the policy digest is refused.
    let fresh = empty_policy_session();
    assert_eq!(
        check_cp_hash(&fresh, &[3u8; 20]).unwrap_err(),
        TpmRc(rc::SIZE).with_parameter(2)
    );
}

#[test]
fn an_expiry_may_only_be_lowered() {
    let mut s = empty_policy_session();

    record_expiration(&mut s, &5000u64.to_be_bytes());
    assert_eq!(s.policy.expiration, Some(5000));

    record_expiration(&mut s, &3000u64.to_be_bytes());
    assert_eq!(s.policy.expiration, Some(3000));

    // It may not extend it.
    record_expiration(&mut s, &9000u64.to_be_bytes());
    assert_eq!(s.policy.expiration, Some(3000));

    // An authorization that does not expire leaves the limit alone.
    record_expiration(&mut s, &[]);
    assert_eq!(s.policy.expiration, Some(3000));
}

#[test]
fn every_startup_begins_a_new_time_epoch() {
    let mut state = manufactured();
    let start = state.clock.time_epoch;
    state.on_startup_clear(0).unwrap();
    let after_reset = state.clock.time_epoch;
    assert_ne!(after_reset, start);

    state.shutdown_type = su::CLEAR;
    state.on_startup_clear(0).unwrap();
    assert_ne!(state.clock.time_epoch, after_reset);

    // A ticket made in one epoch cannot be recomputed in the next.
    let hmac = |s: &TpmState| {
        authorization_ticket_hmac(
            s,
            rh::OWNER,
            st::AUTH_SIGNED,
            b"cp",
            b"ref",
            b"name",
            &5000u64.to_be_bytes(),
            true,
        )
        .unwrap()
    };
    let before = hmac(&state);
    state.on_startup_clear(0).unwrap();
    assert_ne!(hmac(&state), before);
}

#[test]
fn a_ticket_leaves_out_the_counters_it_should() {
    let mut state = manufactured();
    state.on_startup_clear(0).unwrap();
    state.clock.time = 1000;

    let hmac = |timeout: &[u8], with_nonce: bool| {
        authorization_ticket_hmac(
            &state,
            rh::OWNER,
            st::AUTH_SIGNED,
            b"cp",
            b"ref",
            b"name",
            timeout,
            with_nonce,
        )
        .unwrap()
    };

    // With no timeout neither counter is covered, so the nonce makes no
    // difference.
    assert_eq!(hmac(&[], true), hmac(&[], false));

    // With a timeout the reset count goes in only when no nonceTPM was
    // used, so the two differ.
    let timeout = 5000u64.to_be_bytes();
    assert_ne!(hmac(&timeout, true), hmac(&timeout, false));
}

#[test]
fn a_ticket_uses_the_hierarchy_of_the_authorizing_entity() {
    let mut state = manufactured();
    let mut define = |handle: u32, attributes: u32| {
        state
            .nv
            .define(NvIndex {
                public: NvPublic {
                    nv_index: handle,
                    name_alg: alg::SHA256,
                    attributes: NvAttributes(attributes),
                    auth_policy: Tpm2bDigest::empty(),
                    data_size: 8,
                },
                auth: Vec::new(),
                data: Vec::new(),
                read_locked: false,
                write_locked: false,
            })
            .unwrap();
    };
    define(hc::NV_INDEX_FIRST, NvAttributes::AUTHREAD);
    define(
        hc::NV_INDEX_FIRST + 1,
        NvAttributes::AUTHREAD | NvAttributes::PLATFORMCREATE,
    );

    assert_eq!(ticket_hierarchy(&state, hc::NV_INDEX_FIRST), rh::OWNER);
    assert_eq!(
        ticket_hierarchy(&state, hc::NV_INDEX_FIRST + 1),
        rh::PLATFORM,
        "an Index the platform created keys with the platform proof"
    );
    assert_eq!(ticket_hierarchy(&state, rh::LOCKOUT), rh::PLATFORM);
    assert_eq!(ticket_hierarchy(&state, rh::ENDORSEMENT), rh::ENDORSEMENT);
}

#[test]
fn a_timeout_carries_the_reset_flag_in_its_top_bit() {
    let mut state = manufactured();
    state.clock.time = 2000;

    // A non-negative expiration does not expire at all.
    assert!(authorization_timeout(state.clock.time, 0, true).is_empty());

    // With a nonceTPM the limit is measured from when the session started,
    // not from when the authorization arrived.
    let bound = authorization_timeout(500, -1, false);
    assert_eq!(timeout_value(&bound), Some(1500));
    assert_eq!(bound[0] & 0x80, 0);

    // Without one the expiration is the absolute limit and the ticket also
    // expires on a TPM Reset.
    let unbound = authorization_timeout(500, -1, true);
    assert_eq!(timeout_value(&unbound), Some(1000));
    assert_eq!(unbound[0] & 0x80, 0x80);
}

#[test]
fn comparisons_follow_the_operation() {
    let a = [0x00u8, 0x10];
    let b = [0x00u8, 0x20];
    assert_eq!(compare(&a, &b, eo::EQ), Some(false));
    assert_eq!(compare(&a, &a, eo::EQ), Some(true));
    assert_eq!(compare(&a, &b, eo::NEQ), Some(true));
    assert_eq!(compare(&a, &b, eo::UNSIGNED_LT), Some(true));
    assert_eq!(compare(&b, &a, eo::UNSIGNED_GT), Some(true));
    assert_eq!(compare(&a, &a, eo::UNSIGNED_GE), Some(true));
    assert_eq!(compare(&a, &a, eo::UNSIGNED_LE), Some(true));
}

#[test]
fn signed_comparisons_use_the_top_bit() {
    let negative = [0xffu8, 0x00];
    let positive = [0x00u8, 0x01];
    assert_eq!(compare(&negative, &positive, eo::SIGNED_LT), Some(true));
    assert_eq!(compare(&negative, &positive, eo::UNSIGNED_LT), Some(false));
    assert_eq!(compare(&positive, &negative, eo::SIGNED_GT), Some(true));
}

#[test]
fn bit_comparisons() {
    let value = [0b1010_1010u8];
    assert_eq!(compare(&value, &[0b1000_0000], eo::BITSET), Some(true));
    assert_eq!(compare(&value, &[0b0100_0000], eo::BITSET), Some(false));
    assert_eq!(compare(&value, &[0b0101_0101], eo::BITCLEAR), Some(true));
    assert_eq!(compare(&value, &[0b1000_0000], eo::BITCLEAR), Some(false));
}

#[test]
fn a_length_mismatch_or_unknown_operation_has_no_answer() {
    assert_eq!(compare(&[0u8], &[0u8, 0], eo::EQ), None);
    assert_eq!(compare(&[0u8], &[0u8], 0x00ff), None);
}

#[test]
fn session_type_names() {
    assert_eq!(session_type_name(se::HMAC), "HMAC");
    assert_eq!(session_type_name(se::POLICY), "policy");
    assert_eq!(session_type_name(se::TRIAL), "trial");
    assert_eq!(session_type_name(9), "unknown");
    assert!(is_session_hash(alg::SHA256));
    assert!(!is_session_hash(alg::NULL));
}
