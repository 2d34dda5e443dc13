//! Which command a code names.

use vstd::prelude::*;

use crate::tpm::commands::dispatch::{RequestView, Response};
use crate::tpm::commands::wire::{answers_nothing, answers_with};
use crate::tpm::commands::{
    attest, attest_ran, authorization_ran, capability, context, crypto, crypto_ran, duplication,
    hierarchy, hierarchy_ran, management, nv, nv_ran, object, object_ran, pcr, pcr_ran, policy,
    policy_authorization, policy_ran, ran, sequences, session_commands, session_ran, startup_ran,
};
use crate::tpm::engine::state::{Lockout, TpmState};
use crate::tpm::error::TpmResult;
use crate::util::bytes::octets64;

verus! {

/// The codes of the commands on starting, testing, random numbers and the time.
pub proof fn law_codes_of_startup(
    after: TpmState,
    before: TpmState,
    req: RequestView,
    r: TpmResult<Response>,
)
    requires
        ran(after, before, req, r),
    ensures
        req.code == 0x144 ==> management::startup_ran(after, before, req, r),
        req.code == 0x145 ==> management::shutdown_ran(after, before, req, r),
        req.code == 0x143 ==> management::self_test_ran(after, before, req, r),
        req.code == 0x142 ==> management::incremental_self_test_ran(after, before, req, r),
        req.code == 0x17C ==> after == before && answers_with(r, management::test_result(before)),
        req.code == 0x18A ==> after == before && management::test_parms_ran(req, r),
        req.code == 0x178 ==> after == before && management::ecc_parameters_ran(req, r),
        req.code == 0x17B ==> management::get_random_ran(after, before, req, r),
        req.code == 0x146 ==> management::stir_random_ran(after, before, req, r),
        req.code == 0x17A ==> after == before && capability::get_capability_ran(before, req, r),
        req.code == 0x181 ==> after == before && answers_with(
            r,
            octets64(before.clock.time) + management::clock_info_of(before).octets(),
        ),
        req.code == 0x128 ==> management::clock_set_ran(after, before, req, r),
        req.code == 0x130 ==> after == before && management::clock_rate_adjust_ran(req, r),
        req.code == 0x20000000 ==> after == before && management::vendor_tcg_test_ran(req, r),
{
    reveal(startup_ran);
}

/// The codes of the commands on registers.
pub proof fn law_codes_of_registers(
    after: TpmState,
    before: TpmState,
    req: RequestView,
    r: TpmResult<Response>,
)
    requires
        ran(after, before, req, r),
    ensures
        req.code == 0x182 ==> pcr::pcr_extend_ran(after, before, req, r),
        req.code == 0x13C ==> pcr::pcr_event_ran(after, before, req, r),
        req.code == 0x17E ==> after == before && pcr::pcr_read_ran(before, req, r),
        req.code == 0x12B ==> pcr::pcr_allocate_ran(after, before, req, r),
        req.code == 0x12C ==> pcr::pcr_set_auth_policy_ran(after, before, req, r),
        req.code == 0x183 ==> pcr::pcr_set_auth_value_ran(after, before, req, r),
        req.code == 0x13D ==> pcr::pcr_reset_ran(after, before, req, r),
{
    reveal(startup_ran);
    reveal(pcr_ran);
}

/// The codes of the commands on hierarchies and the dictionary attack protection.
pub proof fn law_codes_of_hierarchies(
    after: TpmState,
    before: TpmState,
    req: RequestView,
    r: TpmResult<Response>,
)
    requires
        ran(after, before, req, r),
    ensures
        req.code == 0x121 ==> hierarchy::hierarchy_control_ran(after, before, req, r),
        req.code == 0x12E ==> hierarchy::set_primary_policy_ran(after, before, req, r),
        req.code == 0x125 ==> hierarchy::change_pps_ran(after, before, r),
        req.code == 0x124 ==> hierarchy::change_eps_ran(after, before, r),
        req.code == 0x126 ==> hierarchy::clear_ran(after, before, r),
        req.code == 0x127 ==> hierarchy::clear_control_ran(after, before, req, r),
        req.code == 0x129 ==> hierarchy::hierarchy_change_auth_ran(after, before, req, r),
        req.code == 0x139 ==> answers_nothing(r) && after == (TpmState {
            lockout: Lockout { failed_tries: 0, in_lockout: false, ..before.lockout },
            ..before
        }),
        req.code == 0x13A ==> hierarchy::dictionary_attack_parameters_ran(after, before, req, r),
        req.code == 0x12D ==> hierarchy::pp_commands_ran(after, before, req, r),
        req.code == 0x13F ==> hierarchy::set_algorithm_set_ran(after, before, req, r),
        req.code == 0x1A0 ==> hierarchy::read_only_control_ran(after, before, req, r),
{
    reveal(startup_ran);
    reveal(pcr_ran);
    reveal(hierarchy_ran);
}

/// The codes of the commands on NV Indices.
pub proof fn law_codes_of_indices(
    after: TpmState,
    before: TpmState,
    req: RequestView,
    r: TpmResult<Response>,
)
    requires
        ran(after, before, req, r),
    ensures
        req.code == 0x12A ==> nv::nv_define_space_ran(after, before, req, r),
        req.code == 0x19D ==> nv::nv_define_space2_ran(after, before, req, r),
        req.code == 0x122 ==> nv::nv_undefine_space_ran(after, before, req, r),
        req.code == 0x11F ==> nv::nv_undefine_space_special_ran(after, before, req, r),
        req.code == 0x169 ==> after == before && nv::nv_read_public_ran(before, req, r),
        req.code == 0x19E ==> after == before && nv::nv_read_public2_ran(before, req, r),
        req.code == 0x137 ==> nv::nv_write_ran(after, before, req, r),
        req.code == 0x134 ==> nv::nv_increment_ran(after, before, req, r),
        req.code == 0x136 ==> nv::nv_extend_ran(after, before, req, r),
        req.code == 0x135 ==> nv::nv_set_bits_ran(after, before, req, r),
        req.code == 0x138 ==> nv::nv_write_lock_ran(after, before, req, r),
        req.code == 0x132 ==> nv::nv_global_write_lock_ran(after, before, r),
        req.code == 0x14E ==> after == before && nv::nv_read_ran(before, req, r),
        req.code == 0x14F ==> nv::nv_read_lock_ran(after, before, req, r),
        req.code == 0x13B ==> nv::nv_change_auth_ran(after, before, req, r),
        req.code == 0x184 ==> attest::attests(
            after,
            before,
            attest::nv_certify_check(before, req),
            1,
            2,
            r,
        ),
{
    reveal(startup_ran);
    reveal(pcr_ran);
    reveal(hierarchy_ran);
    reveal(nv_ran);
}

/// The codes of the commands on sessions and contexts.
pub proof fn law_codes_of_sessions(
    after: TpmState,
    before: TpmState,
    req: RequestView,
    r: TpmResult<Response>,
)
    requires
        ran(after, before, req, r),
    ensures
        req.code == 0x176 ==> session_commands::start_auth_session_ran(after, before, req, r),
        req.code == 0x180 ==> session_commands::policy_restart_ran(after, before, req, r),
        req.code == 0x165 ==> session_commands::flush_context_ran(after, before, req, r),
        req.code == 0x162 ==> context::context_save_ran(after, before, req, r),
        req.code == 0x161 ==> context::context_load_ran(after, before, req, r),
        req.code == 0x120 ==> context::evict_control_ran(after, before, req, r),
{
    reveal(startup_ran);
    reveal(pcr_ran);
    reveal(hierarchy_ran);
    reveal(nv_ran);
    reveal(session_ran);
}

/// The codes of the commands on objects.
pub proof fn law_codes_of_objects(
    after: TpmState,
    before: TpmState,
    req: RequestView,
    r: TpmResult<Response>,
)
    requires
        ran(after, before, req, r),
    ensures
        req.code == 0x131 ==> object::only_loads(
            after,
            before,
            object::create_primary_outcome(before, req),
            r,
        ),
        req.code == 0x153 ==> object::create_ran(after, before, req, r),
        req.code == 0x191 ==> object::create_loaded_ran(after, before, req, r),
        req.code == 0x157 ==> object::only_loads(
            after,
            before,
            object::load_outcome(before, req),
            r,
        ),
        req.code == 0x167 ==> object::only_loads(
            after,
            before,
            object::load_external_outcome(before, req),
            r,
        ),
        req.code == 0x173 ==> after == before && object::read_public_ran(before, req, r),
        req.code == 0x15E ==> after == before && object::unseal_ran(before, req, r),
        req.code == 0x150 ==> after == before && object::object_change_auth_ran(before, req, r),
        req.code == 0x168 ==> crypto::make_credential_ran(after, before, req, r),
        req.code == 0x147 ==> after == before && crypto::activate_credential_ran(before, req, r),
        req.code == 0x14B ==> duplication::duplicate_ran(after, before, req, r),
        req.code == 0x156 ==> after == before && duplication::import_ran(before, req, r),
        req.code == 0x152 ==> duplication::rewrap_ran(after, before, req, r),
        req.code == 0x198 ==> duplication::act_set_timeout_ran(after, before, req, r),
        req.code == 0x194 ==> after == before && duplication::ac_get_capability_ran(req, r),
        req.code == 0x195 ==> after == before && duplication::ac_send_ran(req, r),
{
    reveal(startup_ran);
    reveal(pcr_ran);
    reveal(hierarchy_ran);
    reveal(nv_ran);
    reveal(session_ran);
    reveal(object_ran);
}

/// The codes of the commands on cryptography.
pub proof fn law_codes_of_cryptography(
    after: TpmState,
    before: TpmState,
    req: RequestView,
    r: TpmResult<Response>,
)
    requires
        ran(after, before, req, r),
    ensures
        req.code == 0x15D ==> crypto::sign_ran(after, before, req, r),
        req.code == 0x177 ==> after == before && crypto::verify_signature_ran(before, req, r),
        req.code == 0x174 ==> crypto::rsa_encrypt_ran(after, before, req, r),
        req.code == 0x159 ==> after == before && crypto::rsa_decrypt_ran(before, req, r),
        req.code == 0x163 ==> crypto::ecdh_key_gen_ran(after, before, req, r),
        req.code == 0x154 ==> after == before && crypto::ecdh_zgen_ran(before, req, r),
        req.code == 0x18E ==> crypto::ec_ephemeral_ran(after, before, req, r),
        req.code == 0x164 ==> after == before && crypto::encrypt_decrypt_ran(before, req, false, r),
        req.code == 0x193 ==> after == before && crypto::encrypt_decrypt_ran(before, req, true, r),
        req.code == 0x17D ==> after == before && sequences::hash_command_ran(before, req, r),
        req.code == 0x155 ==> after == before && sequences::hmac_command_ran(before, req, r),
        req.code == 0x186 ==> sequences::starts(
            after,
            before,
            sequences::hash_sequence_start_outcome(req),
            r,
        ),
        req.code == 0x15B ==> sequences::starts(
            after,
            before,
            sequences::hmac_start_outcome(before, req),
            r,
        ),
        req.code == 0x15C ==> sequences::sequence_update_ran(after, before, req, r),
        req.code == 0x13E ==> after == before && sequences::sequence_complete_ran(before, req, r),
        req.code == 0x185 ==> sequences::event_sequence_complete_ran(after, before, req, r),
{
    reveal(startup_ran);
    reveal(pcr_ran);
    reveal(hierarchy_ran);
    reveal(nv_ran);
    reveal(session_ran);
    reveal(object_ran);
    reveal(crypto_ran);
}

/// The codes of the commands on attestation and audit.
pub proof fn law_codes_of_attestation(
    after: TpmState,
    before: TpmState,
    req: RequestView,
    r: TpmResult<Response>,
)
    requires
        ran(after, before, req, r),
    ensures
        req.code == 0x148 ==> attest::attests(
            after,
            before,
            attest::certify_check(before, req),
            2,
            2,
            r,
        ),
        req.code == 0x14A ==> attest::attests(
            after,
            before,
            attest::certify_creation_check(before, req),
            1,
            3,
            r,
        ),
        req.code == 0x158 ==> attest::attests(
            after,
            before,
            attest::quote_check(before, req),
            1,
            2,
            r,
        ),
        req.code == 0x14C ==> attest::attests(
            after,
            before,
            attest::get_time_check(before, req),
            2,
            2,
            r,
        ),
        req.code == 0x14D ==> attest::attests(
            after,
            before,
            attest::session_audit_check(before, req),
            2,
            2,
            r,
        ),
        req.code == 0x133 ==> attest::get_command_audit_digest_ran(after, before, req, r),
        req.code == 0x140 ==> attest::set_command_code_audit_status_ran(after, before, req, r),
{
    reveal(startup_ran);
    reveal(pcr_ran);
    reveal(hierarchy_ran);
    reveal(nv_ran);
    reveal(session_ran);
    reveal(object_ran);
    reveal(crypto_ran);
    reveal(attest_ran);
}

/// The codes of the commands on policies.
pub proof fn law_codes_of_policies(
    after: TpmState,
    before: TpmState,
    req: RequestView,
    r: TpmResult<Response>,
)
    requires
        ran(after, before, req, r),
    ensures
        req.code == 0x171 ==> policy::concluded(
            after,
            before,
            policy::policy_or_outcome(before, req),
            r,
        ),
        req.code == 0x17F ==> policy::concluded(
            after,
            before,
            policy::policy_pcr_outcome(before, req),
            r,
        ),
        req.code == 0x16F ==> policy::concluded(
            after,
            before,
            policy::policy_locality_outcome(before, req),
            r,
        ),
        req.code == 0x16C ==> policy::concluded(
            after,
            before,
            policy::policy_command_code_outcome(before, req),
            r,
        ),
        req.code == 0x187 ==> policy::concluded(
            after,
            before,
            policy::policy_physical_presence_outcome(before, req),
            r,
        ),
        req.code == 0x16B ==> policy::concluded(
            after,
            before,
            policy::policy_auth_value_outcome(before, req),
            r,
        ),
        req.code == 0x18C ==> policy::concluded(
            after,
            before,
            policy::policy_password_outcome(before, req),
            r,
        ),
        req.code == 0x1A1 ==> policy::concluded(
            after,
            before,
            policy::policy_transport_spdm_outcome(before, req),
            r,
        ),
        req.code == 0x16E ==> policy::concluded(
            after,
            before,
            policy::policy_cp_hash_outcome(before, req),
            r,
        ),
        req.code == 0x170 ==> policy::concluded(
            after,
            before,
            policy::policy_name_hash_outcome(before, req),
            r,
        ),
        req.code == 0x190 ==> policy::concluded(
            after,
            before,
            policy::policy_template_outcome(before, req),
            r,
        ),
        req.code == 0x19C ==> policy::concluded(
            after,
            before,
            policy::policy_parameters_outcome(before, req),
            r,
        ),
        req.code == 0x189 ==> after == before && policy::policy_get_digest_ran(before, req, r),
        req.code == 0x18F ==> policy::concluded(
            after,
            before,
            policy::policy_nv_written_outcome(before, req),
            r,
        ),
        req.code == 0x16D ==> policy::concluded(
            after,
            before,
            policy::policy_counter_timer_outcome(before, req),
            r,
        ),
        req.code == 0x188 ==> policy::concluded(
            after,
            before,
            policy::policy_duplication_select_outcome(before, req),
            r,
        ),
        req.code == 0x196 ==> policy::concluded(
            after,
            before,
            policy::policy_ac_send_select_outcome(before, req),
            r,
        ),
{
    reveal(startup_ran);
    reveal(pcr_ran);
    reveal(hierarchy_ran);
    reveal(nv_ran);
    reveal(session_ran);
    reveal(object_ran);
    reveal(crypto_ran);
    reveal(attest_ran);
    reveal(policy_ran);
}

/// The codes of the commands on approvals in policies.
pub proof fn law_codes_of_approvals(
    after: TpmState,
    before: TpmState,
    req: RequestView,
    r: TpmResult<Response>,
)
    requires
        ran(after, before, req, r),
    ensures
        req.code == 0x149 ==> policy::concluded(
            after,
            before,
            policy::policy_nv_outcome(before, req),
            r,
        ),
        req.code == 0x192 ==> policy::concluded(
            after,
            before,
            policy::policy_authorize_nv_outcome(before, req),
            r,
        ),
        req.code == 0x19B ==> policy::concluded(
            after,
            before,
            policy::policy_capability_outcome(before, req),
            r,
        ),
        req.code == 0x160 ==> policy_authorization::settled(
            after,
            before,
            policy_authorization::policy_signed_outcome(before, req),
            r,
        ),
        req.code == 0x151 ==> policy_authorization::settled(
            after,
            before,
            policy_authorization::policy_secret_outcome(before, req),
            r,
        ),
        req.code == 0x172 ==> policy::concluded(
            after,
            before,
            policy_authorization::policy_ticket_outcome(before, req),
            r,
        ),
        req.code == 0x16A ==> policy::concluded(
            after,
            before,
            policy_authorization::policy_authorize_outcome(before, req),
            r,
        ),
{
    reveal(startup_ran);
    reveal(pcr_ran);
    reveal(hierarchy_ran);
    reveal(nv_ran);
    reveal(session_ran);
    reveal(object_ran);
    reveal(crypto_ran);
    reveal(attest_ran);
    reveal(policy_ran);
    reveal(authorization_ran);
}

} // verus!
