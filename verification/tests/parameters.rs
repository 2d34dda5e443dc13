//! Every command reads its whole parameter area.

use swtrust::tpm::commands::execute::run;
use swtrust::tpm::constants::{alg, cap, cc, curve, hc, rc, rh, st, su};
use swtrust::tpm::engine::state::TpmState;

/// A TPM that has been started.
fn started() -> TpmState {
    let mut state = TpmState::manufacture(&[0x5a; 48]).unwrap();
    let r = run(&mut state, 0, &command(cc::Startup, &[], false, &su::CLEAR.to_be_bytes()));
    assert_eq!(code_of(&r), rc::SUCCESS);
    state
}

/// A command with these handles and parameters, authorized by an empty password
/// where it needs an authorization.
fn command(code: u32, handles: &[u32], authorized: bool, parameters: &[u8]) -> Vec<u8> {
    let mut body = Vec::new();
    for h in handles {
        body.extend_from_slice(&h.to_be_bytes());
    }
    if authorized {
        body.extend_from_slice(&9u32.to_be_bytes());
        body.extend_from_slice(&rh::RS_PW.to_be_bytes());
        body.extend_from_slice(&[0, 0, 1, 0, 0]);
    }
    body.extend_from_slice(parameters);
    let tag = if authorized { st::SESSIONS } else { st::NO_SESSIONS };
    let mut out = tag.to_be_bytes().to_vec();
    out.extend_from_slice(&(10 + body.len() as u32).to_be_bytes());
    out.extend_from_slice(&code.to_be_bytes());
    out.extend_from_slice(&body);
    out
}

fn code_of(response: &[u8]) -> u32 {
    u32::from_be_bytes([response[6], response[7], response[8], response[9]])
}

/// Octets one after the other.
fn joined(parts: &[&[u8]]) -> Vec<u8> {
    parts.concat()
}

#[test]
fn every_command_checks_the_end_of_its_parameters() {
    let sha256 = alg::SHA256.to_be_bytes();
    let null = alg::NULL.to_be_bytes();
    let one_selection = joined(&[&1u32.to_be_bytes(), &sha256, &[3, 1, 0, 0]]);
    let session = joined(&[&[0, 16], &[1u8; 16], &[0, 0], &[0], &null, &sha256]);
    let capability = joined(&[
        &cap::TPM_PROPERTIES.to_be_bytes(),
        &0x100u32.to_be_bytes(),
        &1u32.to_be_bytes(),
    ]);
    let tables: Vec<(u32, Vec<u32>, bool, Vec<u8>)> = vec![
        (cc::Shutdown, vec![], false, su::CLEAR.to_be_bytes().to_vec()),
        (cc::SelfTest, vec![], false, vec![0]),
        (cc::IncrementalSelfTest, vec![], false, joined(&[&1u32.to_be_bytes(), &sha256])),
        (cc::GetTestResult, vec![], false, vec![]),
        (cc::GetRandom, vec![], false, vec![0, 8]),
        (cc::StirRandom, vec![], false, vec![0, 2, 1, 2]),
        (cc::GetCapability, vec![], false, capability),
        (cc::ReadClock, vec![], false, vec![]),
        (cc::PCR_Read, vec![], false, one_selection.clone()),
        (
            cc::Hash,
            vec![],
            false,
            joined(&[&[0, 3], b"abc", &sha256, &rh::NULL.to_be_bytes()]),
        ),
        (
            cc::HashSequenceStart,
            vec![],
            false,
            joined(&[&[0, 0], &sha256]),
        ),
        (
            cc::ECC_Parameters,
            vec![],
            false,
            curve::NIST_P256.to_be_bytes().to_vec(),
        ),
        (cc::StartAuthSession, vec![rh::NULL, rh::NULL], false, session),
        (
            cc::TestParms,
            vec![],
            false,
            joined(&[&alg::KEYEDHASH.to_be_bytes(), &null]),
        ),
        (cc::Clear, vec![rh::LOCKOUT], true, vec![]),
        (cc::ClearControl, vec![rh::LOCKOUT], true, vec![1]),
        (cc::ChangePPS, vec![rh::PLATFORM], true, vec![]),
        (cc::ChangeEPS, vec![rh::PLATFORM], true, vec![]),
        (
            cc::HierarchyChangeAuth,
            vec![rh::OWNER],
            true,
            vec![0, 2, 0x41, 0x42],
        ),
        (
            cc::HierarchyControl,
            vec![rh::PLATFORM],
            true,
            joined(&[&rh::OWNER.to_be_bytes(), &[0]]),
        ),
        (
            cc::SetPrimaryPolicy,
            vec![rh::OWNER],
            true,
            joined(&[&[0, 0], &null]),
        ),
        (cc::DictionaryAttackLockReset, vec![rh::LOCKOUT], true, vec![]),
        (
            cc::DictionaryAttackParameters,
            vec![rh::LOCKOUT],
            true,
            vec![0, 0, 0, 3, 0, 0, 0, 0, 0, 0, 0, 0],
        ),
        (
            cc::PCR_Extend,
            vec![hc::PCR_FIRST],
            true,
            joined(&[&1u32.to_be_bytes(), &sha256, &[7u8; 32]]),
        ),
        (cc::PCR_Event, vec![hc::PCR_FIRST], true, vec![0, 1, 9]),
        (cc::PCR_Reset, vec![hc::PCR_FIRST + 16], true, vec![]),
        (cc::PCR_Allocate, vec![rh::PLATFORM], true, one_selection),
        (
            cc::ClockSet,
            vec![rh::OWNER],
            true,
            0x1000u64.to_be_bytes().to_vec(),
        ),
        (cc::ClockRateAdjust, vec![rh::OWNER], true, vec![0]),
        (
            cc::SetCommandCodeAuditStatus,
            vec![rh::OWNER],
            true,
            joined(&[&null, &[0, 0, 0, 0, 0, 0, 0, 0]]),
        ),
    ];

    for (code, handles, authorized, parameters) in tables {
        let mut state = started();
        let r = run(&mut state, 0, &command(code, &handles, authorized, &parameters));
        assert_eq!(code_of(&r), rc::SUCCESS, "command {code:#x}");

        let mut state = started();
        let mut longer = parameters;
        longer.push(0);
        let r = run(&mut state, 0, &command(code, &handles, authorized, &longer));
        assert_eq!(code_of(&r) & 0x0BF, rc::SIZE, "command {code:#x}");
        // The refused command did nothing.
        assert!(state.started);
        assert_eq!(state.lockout.failed_tries, 0);
        assert_eq!(state.sessions.len(), 0);
        assert_eq!(state.objects.len(), 0);
        assert_eq!(state.pcr.update_counter(), started().pcr.update_counter());
        assert!(state.hierarchies.owner.auth.is_empty());
    }
}
