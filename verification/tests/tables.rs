//! The tables of handles, the small parameter checks, the rules on NV Indices
//! and what the capabilities report.

use swtrust::tpm::commands::capability::{
    build_capability, handles_in_range, pcr_properties, permanent_attributes, tpm_properties,
};
use swtrust::tpm::commands::handles::{allows, kind, role, Kind, Role};
use swtrust::tpm::commands::hierarchy::yes_no;
use swtrust::tpm::commands::nv::{
    check_read_authority, check_write_authority, validate_new_public,
};
use swtrust::tpm::commands::pcr::pcr_index;
use swtrust::tpm::commands::table;
use swtrust::tpm::config;
use swtrust::tpm::constants::{alg, cap, cc, hc, nt, pt, pt_pcr, rc, rh};
use swtrust::tpm::engine::nv::NvIndex;
use swtrust::tpm::engine::state::TpmState;
use swtrust::tpm::error::TpmRc;
use swtrust::tpm::structures::attributes::{NvAttributes, PermanentAttributes};
use swtrust::tpm::structures::base::Tpm2bDigest;
use swtrust::tpm::structures::capability::Capabilities;
use swtrust::tpm::structures::nv::NvPublic;

fn manufactured() -> TpmState {
    TpmState::manufacture(&[0x5a; 48]).unwrap()
}

#[test]
fn a_clear_handle_takes_only_lockout_and_platform() {
    let h = kind(cc::Clear, 0).unwrap();
    assert_eq!(h.kind, Kind::Clear);
    assert!(allows(h, rh::LOCKOUT));
    assert!(allows(h, rh::PLATFORM));
    assert!(!allows(h, rh::OWNER));
    assert!(!allows(h, rh::ENDORSEMENT));
    // A transient object the caller controls cannot stand in for it.
    assert!(!allows(h, hc::TRANSIENT_FIRST));
}

#[test]
fn a_platform_handle_takes_nothing_else() {
    for code in [cc::ChangePPS, cc::ChangeEPS, cc::PP_Commands] {
        let h = kind(code, 0).unwrap();
        assert_eq!(h.kind, Kind::Platform, "{code:#x}");
        assert!(allows(h, rh::PLATFORM));
        assert!(!allows(h, rh::OWNER));
        assert!(!allows(h, hc::TRANSIENT_FIRST));
    }
}

#[test]
fn a_lockout_handle_takes_nothing_else() {
    for code in [
        cc::DictionaryAttackLockReset,
        cc::DictionaryAttackParameters,
    ] {
        let h = kind(code, 0).unwrap();
        assert_eq!(h.kind, Kind::Lockout, "{code:#x}");
        assert!(allows(h, rh::LOCKOUT));
        assert!(!allows(h, rh::PLATFORM));
        assert!(!allows(h, hc::TRANSIENT_FIRST));
    }
}

#[test]
fn an_optional_handle_also_takes_the_null_handle() {
    // An unsalted and unbound session names TPM_RH_NULL twice.
    for index in 0..2 {
        let h = kind(cc::StartAuthSession, index).unwrap();
        assert!(h.nullable, "handle {index}");
        assert!(allows(h, rh::NULL));
    }
    // TPM2_Clear does not take it.
    assert!(!allows(kind(cc::Clear, 0).unwrap(), rh::NULL));
}

#[test]
fn the_roles_match_the_command_schematics() {
    assert_eq!(role(cc::Duplicate, 0), Role::Dup);
    assert_eq!(role(cc::NV_ChangeAuth, 0), Role::Admin);
    assert_eq!(role(cc::ObjectChangeAuth, 0), Role::Admin);
    assert_eq!(role(cc::Certify, 0), Role::Admin);
    assert_eq!(role(cc::ActivateCredential, 0), Role::Admin);
    assert_eq!(role(cc::NV_UndefineSpaceSpecial, 0), Role::Admin);
    // Ordinary use is the USER role.
    assert_eq!(role(cc::Unseal, 0), Role::User);
    assert_eq!(role(cc::NV_Write, 0), Role::User);
    // A handle that carries no authorization has no role.
    assert_eq!(role(cc::Duplicate, 1), Role::NoAuth);
}

#[test]
fn yes_no_only_accepts_zero_and_one() {
    assert!(!yes_no(0).unwrap());
    assert!(yes_no(1).unwrap());
    assert_eq!(yes_no(2).unwrap_err(), TpmRc(rc::VALUE));
}

#[test]
fn a_pcr_handle_maps_to_an_index() {
    assert_eq!(pcr_index(hc::PCR_FIRST).unwrap(), 0);
    assert_eq!(pcr_index(hc::PCR_FIRST + 23).unwrap(), 23);
    assert_eq!(pcr_index(hc::PCR_LAST).unwrap(), 23);
    assert_eq!(pcr_index(hc::PCR_LAST + 1).unwrap_err(), TpmRc(rc::VALUE));
    assert_eq!(pcr_index(rh::OWNER).unwrap_err(), TpmRc(rc::VALUE));
}

fn index(attributes: u32, index_type: u8, size: u16) -> NvIndex {
    NvIndex {
        public: NvPublic {
            nv_index: hc::NV_INDEX_FIRST + 1,
            name_alg: alg::SHA256,
            attributes: NvAttributes(attributes).with_index_type(index_type),
            auth_policy: Tpm2bDigest::empty(),
            data_size: size,
        },
        auth: Vec::new(),
        data: Vec::new(),
        read_locked: false,
        write_locked: false,
    }
}

#[test]
fn write_authority_follows_the_attributes() {
    let i = index(NvAttributes::OWNERWRITE, nt::ORDINARY, 8);
    assert!(check_write_authority(&i, rh::OWNER, false).is_ok());
    assert_eq!(
        check_write_authority(&i, rh::PLATFORM, false).unwrap_err(),
        TpmRc(rc::NV_AUTHORIZATION)
    );

    let i = index(NvAttributes::AUTHWRITE, nt::ORDINARY, 8);
    assert!(check_write_authority(&i, i.public.nv_index, false).is_ok());
    assert!(check_write_authority(&i, rh::OWNER, false).is_err());
}

#[test]
fn read_authority_follows_the_attributes() {
    let i = index(NvAttributes::PPREAD, nt::ORDINARY, 8);
    assert!(check_read_authority(&i, rh::PLATFORM, false).is_ok());
    assert!(check_read_authority(&i, rh::OWNER, false).is_err());
}

#[test]
fn the_authorization_method_must_match_the_attribute() {
    // A policy-only Index is not reachable with a password or HMAC session, and
    // an authValue-only Index is not reachable with a policy session.
    let policy_only = index(NvAttributes::POLICYREAD, nt::ORDINARY, 8);
    let handle = policy_only.public.nv_index;
    assert!(check_read_authority(&policy_only, handle, true).is_ok());
    assert_eq!(
        check_read_authority(&policy_only, handle, false).unwrap_err(),
        TpmRc(rc::NV_AUTHORIZATION)
    );

    let auth_only = index(NvAttributes::AUTHREAD, nt::ORDINARY, 8);
    assert!(check_read_authority(&auth_only, handle, false).is_ok());
    assert_eq!(
        check_read_authority(&auth_only, handle, true).unwrap_err(),
        TpmRc(rc::NV_AUTHORIZATION)
    );

    // The same split applies to writing.
    let policy_write = index(NvAttributes::POLICYWRITE, nt::ORDINARY, 8);
    assert!(check_write_authority(&policy_write, handle, true).is_ok());
    assert!(check_write_authority(&policy_write, handle, false).is_err());
    let auth_write = index(NvAttributes::AUTHWRITE, nt::ORDINARY, 8);
    assert!(check_write_authority(&auth_write, handle, false).is_ok());
    assert!(check_write_authority(&auth_write, handle, true).is_err());
}

#[test]
fn a_definition_needs_one_read_and_one_write_authority() {
    let state = manufactured();
    let i = index(NvAttributes::OWNERWRITE, nt::ORDINARY, 8);
    assert_eq!(
        validate_new_public(&state, &i.public, rh::OWNER)
            .unwrap_err()
            .0
            & 0x03F,
        rc::ATTRIBUTES & 0x03F
    );
    let i = index(
        NvAttributes::OWNERWRITE | NvAttributes::OWNERREAD,
        nt::ORDINARY,
        8,
    );
    assert!(validate_new_public(&state, &i.public, rh::OWNER).is_ok());
}

#[test]
fn counter_and_bit_indices_are_eight_octets() {
    let state = manufactured();
    let attrs = NvAttributes::OWNERWRITE | NvAttributes::OWNERREAD;
    for kind in [nt::COUNTER, nt::BITS, nt::PIN_FAIL, nt::PIN_PASS] {
        let good = index(attrs, kind, 8);
        assert!(validate_new_public(&state, &good.public, rh::OWNER).is_ok());
        let bad = index(attrs, kind, 4);
        assert_eq!(
            validate_new_public(&state, &bad.public, rh::OWNER)
                .unwrap_err()
                .0
                & 0x03F,
            rc::SIZE & 0x03F
        );
    }
    // An extend Index is the size of its name algorithm digest.
    let good = index(attrs, nt::EXTEND, 32);
    assert!(validate_new_public(&state, &good.public, rh::OWNER).is_ok());
    let bad = index(attrs, nt::EXTEND, 20);
    assert!(validate_new_public(&state, &bad.public, rh::OWNER).is_err());
}

#[test]
fn the_written_bit_may_not_be_asked_for() {
    let state = manufactured();
    let i = index(
        NvAttributes::OWNERWRITE | NvAttributes::OWNERREAD | NvAttributes::WRITTEN,
        nt::ORDINARY,
        8,
    );
    assert!(validate_new_public(&state, &i.public, rh::OWNER).is_err());
}

#[test]
fn a_policy_based_index_needs_a_policy() {
    let state = manufactured();
    let i = index(
        NvAttributes::POLICYWRITE | NvAttributes::OWNERREAD,
        nt::ORDINARY,
        8,
    );
    assert!(validate_new_public(&state, &i.public, rh::OWNER).is_err());
    let mut i = i;
    i.public.auth_policy = Tpm2bDigest::from_slice(&[0u8; 32]).unwrap();
    assert!(validate_new_public(&state, &i.public, rh::OWNER).is_ok());
}

#[test]
fn policy_delete_needs_platform_authorization() {
    let state = manufactured();
    let mut i = index(
        NvAttributes::OWNERWRITE | NvAttributes::OWNERREAD | NvAttributes::POLICY_DELETE,
        nt::ORDINARY,
        8,
    );
    i.public.auth_policy = Tpm2bDigest::from_slice(&[0u8; 32]).unwrap();
    assert!(validate_new_public(&state, &i.public, rh::OWNER).is_err());
    assert!(validate_new_public(&state, &i.public, rh::PLATFORM).is_ok());
}

#[test]
fn tpm_properties_report_the_vendor_identity() {
    let state = manufactured();
    let props = tpm_properties(&state, 0);
    let find = |p: u32| props.iter().find(|t| t.property == p).map(|t| t.value);
    assert_eq!(find(pt::MANUFACTURER), Some(0x5357_5400));
    assert_eq!(find(pt::FIRMWARE_VERSION_1), Some(0x0001_0000));
    assert_eq!(find(pt::FIRMWARE_VERSION_2), Some(0x0000_0000));
    assert_eq!(find(pt::VENDOR_STRING_1), Some(0x5357_5400));
    assert_eq!(find(pt::REVISION), Some(185));
    assert_eq!(find(pt::PCR_COUNT), Some(24));
    assert_eq!(find(pt::MAX_COMMAND_SIZE), Some(config::MAX_COMMAND_SIZE));
}

#[test]
fn properties_are_sorted_and_filtered() {
    let state = manufactured();
    let props = tpm_properties(&state, pt::PT_VAR);
    assert!(props.iter().all(|p| p.property >= pt::PT_VAR));
    for pair in props.windows(2) {
        assert!(pair[0].property < pair[1].property);
    }
}

#[test]
fn permanent_attributes_track_the_authorization_values() {
    let mut state = manufactured();
    assert!(!permanent_attributes(&state).has(PermanentAttributes::OWNER_AUTH_SET));
    state.hierarchies.owner.auth = b"x".to_vec();
    assert!(permanent_attributes(&state).has(PermanentAttributes::OWNER_AUTH_SET));
    state.lockout_auth = b"y".to_vec();
    assert!(permanent_attributes(&state).has(PermanentAttributes::LOCKOUT_AUTH_SET));
    state.lockout.in_lockout = true;
    assert!(permanent_attributes(&state).has(PermanentAttributes::IN_LOCKOUT));
}

#[test]
fn pcr_properties_describe_the_platform_profile() {
    let props = pcr_properties(0);
    let find = |tag: u32| props.iter().find(|p| p.tag == tag).unwrap();
    // Every PCR can be extended from locality 0 except the D-RTM range.
    let l0 = find(pt_pcr::EXTEND_L0);
    assert!(l0.select.is_selected(0));
    assert!(!l0.select.is_selected(17));
    // Only PCR 16 and 23 reset from locality 0.
    let r0 = find(pt_pcr::RESET_L0);
    assert!(r0.select.is_selected(16));
    assert!(r0.select.is_selected(23));
    assert!(!r0.select.is_selected(0));
    // No command resets PCR 17, but a D-RTM event does, at locality four, and
    // the capability reports every way a register can be reset.
    let r4 = find(pt_pcr::RESET_L4);
    assert!(r4.select.is_selected(17));
    assert!(!r4.select.is_selected(0));
    assert!(!r4.select.is_selected(16));
    // The TCB registers reset by command from localities two and three.
    let r2 = find(pt_pcr::RESET_L2);
    assert!(r2.select.is_selected(21));
    assert!(r2.select.is_selected(22));
    assert!(!r2.select.is_selected(17));
    // The debug, TCB and application registers do not advance the counter.
    let ni = find(pt_pcr::NO_INCREMENT);
    for index in [16u16, 21, 22, 23] {
        assert!(ni.select.is_selected(index), "PCR {index}");
    }
    assert!(!ni.select.is_selected(0));
    // Only the static root of trust registers are saved.
    let save = find(pt_pcr::SAVE);
    assert!(save.select.is_selected(0));
    assert!(save.select.is_selected(15));
    assert!(!save.select.is_selected(16));
    assert!(!save.select.is_selected(17));
    assert!(!save.select.is_selected(23));
    // The registers a D-RTM resets are reported.
    let drtm = find(pt_pcr::DRTM_RESET);
    assert!(drtm.select.is_selected(17));
    assert!(!drtm.select.is_selected(0));
}

#[test]
fn capability_lists_report_more_when_truncated() {
    let state = manufactured();
    let (more, data) = build_capability(&state, cap::TPM_PROPERTIES, 0, 3).unwrap();
    assert!(more);
    if let Capabilities::TpmProperties(l) = data {
        assert_eq!(l.items.len(), 3);
    } else {
        panic!("wrong capability");
    }
    let (more, _) = build_capability(&state, cap::TPM_PROPERTIES, 0, 1000).unwrap();
    assert!(!more);
}

#[test]
fn an_unknown_capability_is_refused() {
    let state = manufactured();
    let e = match build_capability(&state, 0x0000_0099, 0, 1) {
        Ok(_) => panic!("an unknown capability was reported"),
        Err(e) => e,
    };
    assert_eq!(e.0 & 0x03F, rc::VALUE & 0x03F);
}

#[test]
fn the_command_capability_lists_every_implemented_command() {
    let state = manufactured();
    let (_, data) = build_capability(&state, cap::COMMANDS, 0, 1000).unwrap();
    if let Capabilities::Command(l) = data {
        assert_eq!(l.items.len(), table::COMMANDS.len());
    } else {
        panic!("wrong capability");
    }
}

#[test]
fn the_curve_capability_lists_the_implemented_curves() {
    let state = manufactured();
    let (_, data) = build_capability(&state, cap::ECC_CURVES, 0, 100).unwrap();
    if let Capabilities::EccCurves(l) = data {
        assert_eq!(l.items, config::IMPLEMENTED_CURVES.to_vec());
    } else {
        panic!("wrong capability");
    }
}

#[test]
fn permanent_handles_are_listed() {
    let state = manufactured();
    let handles = handles_in_range(&state, rh::FIRST);
    assert!(handles.contains(&rh::OWNER));
    assert!(handles.contains(&rh::PLATFORM));
    assert!(handles.contains(&rh::LOCKOUT));
}
