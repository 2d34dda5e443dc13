//! The commands.

use vstd::prelude::*;

pub mod attest;
pub mod authorize;
pub mod capability;
pub mod context;
pub mod creation;
pub mod crypto;
pub mod dispatch;
pub mod duplication;
pub mod execute;
pub mod gate;
pub mod handles;
pub mod hierarchy;
pub mod management;
pub mod nv;
pub mod object;
pub mod parameters;
pub mod pcr;
pub mod policy;
pub mod policy_authorization;
pub mod sequences;
pub mod session_commands;
pub mod sessions;
pub mod signatures;
pub mod table;
pub mod wire;

use crate::tpm::constants::{cc, rc};
use crate::tpm::engine::state::{Lockout, TpmState};
use crate::tpm::error::{TpmRc, TpmResult};
use crate::util::bytes::octets64;
use dispatch::{Request, RequestView, Response};
use wire::{answers_nothing, answers_with};

verus! {

/// Startup, self tests, random numbers, time and capabilities. Another code is looked for further on.
#[verifier::opaque]
pub open spec fn startup_ran(
    after: TpmState,
    before: TpmState,
    req: RequestView,
    r: TpmResult<Response>,
) -> bool {
    if req.code == cc::Startup {
        management::startup_ran(after, before, req, r)
    } else if req.code == cc::Shutdown {
        management::shutdown_ran(after, before, req, r)
    } else if req.code == cc::SelfTest {
        management::self_test_ran(after, before, req, r)
    } else if req.code == cc::IncrementalSelfTest {
        management::incremental_self_test_ran(after, before, req, r)
    } else if req.code == cc::GetTestResult {
        &&& after == before
        &&& answers_with(r, management::test_result(before))
    } else if req.code == cc::TestParms {
        &&& after == before
        &&& management::test_parms_ran(req, r)
    } else if req.code == cc::ECC_Parameters {
        &&& after == before
        &&& management::ecc_parameters_ran(req, r)
    } else if req.code == cc::GetRandom {
        management::get_random_ran(after, before, req, r)
    } else if req.code == cc::StirRandom {
        management::stir_random_ran(after, before, req, r)
    } else if req.code == cc::GetCapability {
        &&& after == before
        &&& capability::get_capability_ran(before, req, r)
    } else if req.code == cc::ReadClock {
        &&& after == before
        &&& answers_with(r, octets64(before.clock.time) + management::clock_info_of(before).octets())
    } else if req.code == cc::ClockSet {
        management::clock_set_ran(after, before, req, r)
    } else if req.code == cc::ClockRateAdjust {
        &&& after == before
        &&& management::clock_rate_adjust_ran(req, r)
    } else if req.code == cc::Vendor_TCG_Test {
        &&& after == before
        &&& management::vendor_tcg_test_ran(req, r)
    } else {
        pcr_ran(after, before, req, r)
    }
}

/// Startup, self tests, random numbers, time and capabilities.
fn run_startup(state: &mut TpmState, request: &Request) -> (r: TpmResult<Response>)
    requires
        old(state).wf(),
    ensures
        final(state).wf(),
        startup_ran(*final(state), *old(state), request@, r),
{
    proof {
        reveal(startup_ran);
    }
    if request.code == cc::Startup {
        return management::startup(state, request);
    }
    if request.code == cc::Shutdown {
        return management::shutdown(state, request);
    }
    if request.code == cc::SelfTest {
        return management::self_test(state, request);
    }
    if request.code == cc::IncrementalSelfTest {
        return management::incremental_self_test(state, request);
    }
    if request.code == cc::GetTestResult {
        return management::get_test_result(state, request);
    }
    if request.code == cc::TestParms {
        return management::test_parms(state, request);
    }
    if request.code == cc::ECC_Parameters {
        return management::ecc_parameters(state, request);
    }
    if request.code == cc::GetRandom {
        return management::get_random(state, request);
    }
    if request.code == cc::StirRandom {
        return management::stir_random(state, request);
    }
    if request.code == cc::GetCapability {
        return capability::get_capability(state, request);
    }
    if request.code == cc::ReadClock {
        return management::read_clock(state, request);
    }
    if request.code == cc::ClockSet {
        return management::clock_set(state, request);
    }
    if request.code == cc::ClockRateAdjust {
        return management::clock_rate_adjust(state, request);
    }
    if request.code == cc::Vendor_TCG_Test {
        return management::vendor_tcg_test(state, request);
    }
    run_pcr(state, request)
}

/// Registers. Another code is looked for further on.
#[verifier::opaque]
pub open spec fn pcr_ran(
    after: TpmState,
    before: TpmState,
    req: RequestView,
    r: TpmResult<Response>,
) -> bool {
    if req.code == cc::PCR_Extend {
        pcr::pcr_extend_ran(after, before, req, r)
    } else if req.code == cc::PCR_Event {
        pcr::pcr_event_ran(after, before, req, r)
    } else if req.code == cc::PCR_Read {
        &&& after == before
        &&& pcr::pcr_read_ran(before, req, r)
    } else if req.code == cc::PCR_Allocate {
        pcr::pcr_allocate_ran(after, before, req, r)
    } else if req.code == cc::PCR_SetAuthPolicy {
        pcr::pcr_set_auth_policy_ran(after, before, req, r)
    } else if req.code == cc::PCR_SetAuthValue {
        pcr::pcr_set_auth_value_ran(after, before, req, r)
    } else if req.code == cc::PCR_Reset {
        pcr::pcr_reset_ran(after, before, req, r)
    } else {
        hierarchy_ran(after, before, req, r)
    }
}

/// Registers.
fn run_pcr(state: &mut TpmState, request: &Request) -> (r: TpmResult<Response>)
    requires
        old(state).wf(),
    ensures
        final(state).wf(),
        pcr_ran(*final(state), *old(state), request@, r),
{
    proof {
        reveal(pcr_ran);
    }
    if request.code == cc::PCR_Extend {
        return pcr::pcr_extend(state, request);
    }
    if request.code == cc::PCR_Event {
        return pcr::pcr_event(state, request);
    }
    if request.code == cc::PCR_Read {
        return pcr::pcr_read(state, request);
    }
    if request.code == cc::PCR_Allocate {
        return pcr::pcr_allocate(state, request);
    }
    if request.code == cc::PCR_SetAuthPolicy {
        return pcr::pcr_set_auth_policy(state, request);
    }
    if request.code == cc::PCR_SetAuthValue {
        return pcr::pcr_set_auth_value(state, request);
    }
    if request.code == cc::PCR_Reset {
        return pcr::pcr_reset(state, request);
    }
    run_hierarchy(state, request)
}

/// Hierarchies and dictionary attack. Another code is looked for further on.
#[verifier::opaque]
pub open spec fn hierarchy_ran(
    after: TpmState,
    before: TpmState,
    req: RequestView,
    r: TpmResult<Response>,
) -> bool {
    if req.code == cc::HierarchyControl {
        hierarchy::hierarchy_control_ran(after, before, req, r)
    } else if req.code == cc::SetPrimaryPolicy {
        hierarchy::set_primary_policy_ran(after, before, req, r)
    } else if req.code == cc::ChangePPS {
        hierarchy::change_pps_ran(after, before, r)
    } else if req.code == cc::ChangeEPS {
        hierarchy::change_eps_ran(after, before, r)
    } else if req.code == cc::Clear {
        hierarchy::clear_ran(after, before, r)
    } else if req.code == cc::ClearControl {
        hierarchy::clear_control_ran(after, before, req, r)
    } else if req.code == cc::HierarchyChangeAuth {
        hierarchy::hierarchy_change_auth_ran(after, before, req, r)
    } else if req.code == cc::DictionaryAttackLockReset {
        &&& answers_nothing(r)
        &&& after == (TpmState { lockout: Lockout { failed_tries: 0, in_lockout: false, ..before.lockout }, ..before })
    } else if req.code == cc::DictionaryAttackParameters {
        hierarchy::dictionary_attack_parameters_ran(after, before, req, r)
    } else if req.code == cc::PP_Commands {
        hierarchy::pp_commands_ran(after, before, req, r)
    } else if req.code == cc::SetAlgorithmSet {
        hierarchy::set_algorithm_set_ran(after, before, req, r)
    } else if req.code == cc::ReadOnlyControl {
        hierarchy::read_only_control_ran(after, before, req, r)
    } else {
        nv_ran(after, before, req, r)
    }
}

/// Hierarchies and dictionary attack.
fn run_hierarchy(state: &mut TpmState, request: &Request) -> (r: TpmResult<Response>)
    requires
        old(state).wf(),
    ensures
        final(state).wf(),
        hierarchy_ran(*final(state), *old(state), request@, r),
{
    proof {
        reveal(hierarchy_ran);
    }
    if request.code == cc::HierarchyControl {
        return hierarchy::hierarchy_control(state, request);
    }
    if request.code == cc::SetPrimaryPolicy {
        return hierarchy::set_primary_policy(state, request);
    }
    if request.code == cc::ChangePPS {
        return hierarchy::change_pps(state, request);
    }
    if request.code == cc::ChangeEPS {
        return hierarchy::change_eps(state, request);
    }
    if request.code == cc::Clear {
        return hierarchy::clear(state, request);
    }
    if request.code == cc::ClearControl {
        return hierarchy::clear_control(state, request);
    }
    if request.code == cc::HierarchyChangeAuth {
        return hierarchy::hierarchy_change_auth(state, request);
    }
    if request.code == cc::DictionaryAttackLockReset {
        return hierarchy::dictionary_attack_lock_reset(state, request);
    }
    if request.code == cc::DictionaryAttackParameters {
        return hierarchy::dictionary_attack_parameters(state, request);
    }
    if request.code == cc::PP_Commands {
        return hierarchy::pp_commands(state, request);
    }
    if request.code == cc::SetAlgorithmSet {
        return hierarchy::set_algorithm_set(state, request);
    }
    if request.code == cc::ReadOnlyControl {
        return hierarchy::read_only_control(state, request);
    }
    run_nv(state, request)
}

/// NV Indexes. Another code is looked for further on.
#[verifier::opaque]
pub open spec fn nv_ran(
    after: TpmState,
    before: TpmState,
    req: RequestView,
    r: TpmResult<Response>,
) -> bool {
    if req.code == cc::NV_DefineSpace {
        nv::nv_define_space_ran(after, before, req, r)
    } else if req.code == cc::NV_DefineSpace2 {
        nv::nv_define_space2_ran(after, before, req, r)
    } else if req.code == cc::NV_UndefineSpace {
        nv::nv_undefine_space_ran(after, before, req, r)
    } else if req.code == cc::NV_UndefineSpaceSpecial {
        nv::nv_undefine_space_special_ran(after, before, req, r)
    } else if req.code == cc::NV_ReadPublic {
        &&& after == before
        &&& nv::nv_read_public_ran(before, req, r)
    } else if req.code == cc::NV_ReadPublic2 {
        &&& after == before
        &&& nv::nv_read_public2_ran(before, req, r)
    } else if req.code == cc::NV_Write {
        nv::nv_write_ran(after, before, req, r)
    } else if req.code == cc::NV_Increment {
        nv::nv_increment_ran(after, before, req, r)
    } else if req.code == cc::NV_Extend {
        nv::nv_extend_ran(after, before, req, r)
    } else if req.code == cc::NV_SetBits {
        nv::nv_set_bits_ran(after, before, req, r)
    } else if req.code == cc::NV_WriteLock {
        nv::nv_write_lock_ran(after, before, req, r)
    } else if req.code == cc::NV_GlobalWriteLock {
        nv::nv_global_write_lock_ran(after, before, r)
    } else if req.code == cc::NV_Read {
        &&& after == before
        &&& nv::nv_read_ran(before, req, r)
    } else if req.code == cc::NV_ReadLock {
        nv::nv_read_lock_ran(after, before, req, r)
    } else if req.code == cc::NV_ChangeAuth {
        nv::nv_change_auth_ran(after, before, req, r)
    } else if req.code == cc::NV_Certify {
        attest::attests(after, before, attest::nv_certify_check(before, req), 1, 2, r)
    } else {
        session_ran(after, before, req, r)
    }
}

/// NV Indexes.
fn run_nv(state: &mut TpmState, request: &Request) -> (r: TpmResult<Response>)
    requires
        old(state).wf(),
    ensures
        final(state).wf(),
        nv_ran(*final(state), *old(state), request@, r),
{
    proof {
        reveal(nv_ran);
    }
    if request.code == cc::NV_DefineSpace {
        return nv::nv_define_space(state, request);
    }
    if request.code == cc::NV_DefineSpace2 {
        return nv::nv_define_space2(state, request);
    }
    if request.code == cc::NV_UndefineSpace {
        return nv::nv_undefine_space(state, request);
    }
    if request.code == cc::NV_UndefineSpaceSpecial {
        return nv::nv_undefine_space_special(state, request);
    }
    if request.code == cc::NV_ReadPublic {
        return nv::nv_read_public(state, request);
    }
    if request.code == cc::NV_ReadPublic2 {
        return nv::nv_read_public2(state, request);
    }
    if request.code == cc::NV_Write {
        return nv::nv_write(state, request);
    }
    if request.code == cc::NV_Increment {
        return nv::nv_increment(state, request);
    }
    if request.code == cc::NV_Extend {
        return nv::nv_extend(state, request);
    }
    if request.code == cc::NV_SetBits {
        return nv::nv_set_bits(state, request);
    }
    if request.code == cc::NV_WriteLock {
        return nv::nv_write_lock(state, request);
    }
    if request.code == cc::NV_GlobalWriteLock {
        return nv::nv_global_write_lock(state, request);
    }
    if request.code == cc::NV_Read {
        return nv::nv_read(state, request);
    }
    if request.code == cc::NV_ReadLock {
        return nv::nv_read_lock(state, request);
    }
    if request.code == cc::NV_ChangeAuth {
        return nv::nv_change_auth(state, request);
    }
    if request.code == cc::NV_Certify {
        return attest::nv_certify(state, request);
    }
    run_session(state, request)
}

/// Sessions and contexts. Another code is looked for further on.
#[verifier::opaque]
pub open spec fn session_ran(
    after: TpmState,
    before: TpmState,
    req: RequestView,
    r: TpmResult<Response>,
) -> bool {
    if req.code == cc::StartAuthSession {
        session_commands::start_auth_session_ran(after, before, req, r)
    } else if req.code == cc::PolicyRestart {
        session_commands::policy_restart_ran(after, before, req, r)
    } else if req.code == cc::FlushContext {
        session_commands::flush_context_ran(after, before, req, r)
    } else if req.code == cc::ContextSave {
        context::context_save_ran(after, before, req, r)
    } else if req.code == cc::ContextLoad {
        context::context_load_ran(after, before, req, r)
    } else if req.code == cc::EvictControl {
        context::evict_control_ran(after, before, req, r)
    } else {
        object_ran(after, before, req, r)
    }
}

/// Sessions and contexts.
fn run_session(state: &mut TpmState, request: &Request) -> (r: TpmResult<Response>)
    requires
        old(state).wf(),
    ensures
        final(state).wf(),
        session_ran(*final(state), *old(state), request@, r),
{
    proof {
        reveal(session_ran);
    }
    if request.code == cc::StartAuthSession {
        return session_commands::start_auth_session(state, request);
    }
    if request.code == cc::PolicyRestart {
        return session_commands::policy_restart(state, request);
    }
    if request.code == cc::FlushContext {
        return session_commands::flush_context(state, request);
    }
    if request.code == cc::ContextSave {
        return context::context_save(state, request);
    }
    if request.code == cc::ContextLoad {
        return context::context_load(state, request);
    }
    if request.code == cc::EvictControl {
        return context::evict_control(state, request);
    }
    run_object(state, request)
}

/// Objects. Another code is looked for further on.
#[verifier::opaque]
pub open spec fn object_ran(
    after: TpmState,
    before: TpmState,
    req: RequestView,
    r: TpmResult<Response>,
) -> bool {
    if req.code == cc::CreatePrimary {
        object::only_loads(after, before, object::create_primary_outcome(before, req), r)
    } else if req.code == cc::Create {
        object::create_ran(after, before, req, r)
    } else if req.code == cc::CreateLoaded {
        object::create_loaded_ran(after, before, req, r)
    } else if req.code == cc::Load {
        object::only_loads(after, before, object::load_outcome(before, req), r)
    } else if req.code == cc::LoadExternal {
        object::only_loads(after, before, object::load_external_outcome(before, req), r)
    } else if req.code == cc::ReadPublic {
        &&& after == before
        &&& object::read_public_ran(before, req, r)
    } else if req.code == cc::Unseal {
        &&& after == before
        &&& object::unseal_ran(before, req, r)
    } else if req.code == cc::ObjectChangeAuth {
        &&& after == before
        &&& object::object_change_auth_ran(before, req, r)
    } else if req.code == cc::MakeCredential {
        crypto::make_credential_ran(after, before, req, r)
    } else if req.code == cc::ActivateCredential {
        &&& after == before
        &&& crypto::activate_credential_ran(before, req, r)
    } else if req.code == cc::Duplicate {
        duplication::duplicate_ran(after, before, req, r)
    } else if req.code == cc::Import {
        &&& after == before
        &&& duplication::import_ran(before, req, r)
    } else if req.code == cc::Rewrap {
        duplication::rewrap_ran(after, before, req, r)
    } else if req.code == cc::ACT_SetTimeout {
        duplication::act_set_timeout_ran(after, before, req, r)
    } else if req.code == cc::AC_GetCapability {
        &&& after == before
        &&& duplication::ac_get_capability_ran(req, r)
    } else if req.code == cc::AC_Send {
        &&& after == before
        &&& duplication::ac_send_ran(req, r)
    } else {
        crypto_ran(after, before, req, r)
    }
}

/// Objects.
fn run_object(state: &mut TpmState, request: &Request) -> (r: TpmResult<Response>)
    requires
        old(state).wf(),
    ensures
        final(state).wf(),
        object_ran(*final(state), *old(state), request@, r),
{
    proof {
        reveal(object_ran);
    }
    if request.code == cc::CreatePrimary {
        return object::create_primary(state, request);
    }
    if request.code == cc::Create {
        return object::create(state, request);
    }
    if request.code == cc::CreateLoaded {
        return object::create_loaded(state, request);
    }
    if request.code == cc::Load {
        return object::load(state, request);
    }
    if request.code == cc::LoadExternal {
        return object::load_external(state, request);
    }
    if request.code == cc::ReadPublic {
        return object::read_public(state, request);
    }
    if request.code == cc::Unseal {
        return object::unseal(state, request);
    }
    if request.code == cc::ObjectChangeAuth {
        return object::object_change_auth(state, request);
    }
    if request.code == cc::MakeCredential {
        return crypto::make_credential(state, request);
    }
    if request.code == cc::ActivateCredential {
        return crypto::activate_credential(state, request);
    }
    if request.code == cc::Duplicate {
        return duplication::duplicate(state, request);
    }
    if request.code == cc::Import {
        return duplication::import(state, request);
    }
    if request.code == cc::Rewrap {
        return duplication::rewrap(state, request);
    }
    if request.code == cc::ACT_SetTimeout {
        return duplication::act_set_timeout(state, request);
    }
    if request.code == cc::AC_GetCapability {
        return duplication::ac_get_capability(state, request);
    }
    if request.code == cc::AC_Send {
        return duplication::ac_send(state, request);
    }
    run_crypto(state, request)
}

/// Keys, hashes and sequences. Another code is looked for further on.
#[verifier::opaque]
pub open spec fn crypto_ran(
    after: TpmState,
    before: TpmState,
    req: RequestView,
    r: TpmResult<Response>,
) -> bool {
    if req.code == cc::Sign {
        crypto::sign_ran(after, before, req, r)
    } else if req.code == cc::VerifySignature {
        &&& after == before
        &&& crypto::verify_signature_ran(before, req, r)
    } else if req.code == cc::RSA_Encrypt {
        crypto::rsa_encrypt_ran(after, before, req, r)
    } else if req.code == cc::RSA_Decrypt {
        &&& after == before
        &&& crypto::rsa_decrypt_ran(before, req, r)
    } else if req.code == cc::ECDH_KeyGen {
        crypto::ecdh_key_gen_ran(after, before, req, r)
    } else if req.code == cc::ECDH_ZGen {
        &&& after == before
        &&& crypto::ecdh_zgen_ran(before, req, r)
    } else if req.code == cc::EC_Ephemeral {
        crypto::ec_ephemeral_ran(after, before, req, r)
    } else if req.code == cc::EncryptDecrypt {
        &&& after == before
        &&& crypto::encrypt_decrypt_ran(before, req, false, r)
    } else if req.code == cc::EncryptDecrypt2 {
        &&& after == before
        &&& crypto::encrypt_decrypt_ran(before, req, true, r)
    } else if req.code == cc::Hash {
        &&& after == before
        &&& sequences::hash_command_ran(before, req, r)
    } else if req.code == cc::HMAC {
        &&& after == before
        &&& sequences::hmac_command_ran(before, req, r)
    } else if req.code == cc::HashSequenceStart {
        sequences::starts(after, before, sequences::hash_sequence_start_outcome(req), r)
    } else if req.code == cc::HMAC_Start {
        sequences::starts(after, before, sequences::hmac_start_outcome(before, req), r)
    } else if req.code == cc::SequenceUpdate {
        sequences::sequence_update_ran(after, before, req, r)
    } else if req.code == cc::SequenceComplete {
        &&& after == before
        &&& sequences::sequence_complete_ran(before, req, r)
    } else if req.code == cc::EventSequenceComplete {
        sequences::event_sequence_complete_ran(after, before, req, r)
    } else {
        attest_ran(after, before, req, r)
    }
}

/// Keys, hashes and sequences.
fn run_crypto(state: &mut TpmState, request: &Request) -> (r: TpmResult<Response>)
    requires
        old(state).wf(),
    ensures
        final(state).wf(),
        crypto_ran(*final(state), *old(state), request@, r),
{
    proof {
        reveal(crypto_ran);
    }
    if request.code == cc::Sign {
        return crypto::sign(state, request);
    }
    if request.code == cc::VerifySignature {
        return crypto::verify_signature(state, request);
    }
    if request.code == cc::RSA_Encrypt {
        return crypto::rsa_encrypt(state, request);
    }
    if request.code == cc::RSA_Decrypt {
        return crypto::rsa_decrypt(state, request);
    }
    if request.code == cc::ECDH_KeyGen {
        return crypto::ecdh_key_gen(state, request);
    }
    if request.code == cc::ECDH_ZGen {
        return crypto::ecdh_zgen(state, request);
    }
    if request.code == cc::EC_Ephemeral {
        return crypto::ec_ephemeral(state, request);
    }
    if request.code == cc::EncryptDecrypt {
        return crypto::encrypt_decrypt(state, request, false);
    }
    if request.code == cc::EncryptDecrypt2 {
        return crypto::encrypt_decrypt(state, request, true);
    }
    if request.code == cc::Hash {
        return sequences::hash_command(state, request);
    }
    if request.code == cc::HMAC {
        return sequences::hmac_command(state, request);
    }
    if request.code == cc::HashSequenceStart {
        return sequences::hash_sequence_start(state, request);
    }
    if request.code == cc::HMAC_Start {
        return sequences::hmac_start(state, request);
    }
    if request.code == cc::SequenceUpdate {
        return sequences::sequence_update(state, request);
    }
    if request.code == cc::SequenceComplete {
        return sequences::sequence_complete(state, request);
    }
    if request.code == cc::EventSequenceComplete {
        return sequences::event_sequence_complete(state, request);
    }
    run_attest(state, request)
}

/// Attestation and audit. Another code is looked for further on.
#[verifier::opaque]
pub open spec fn attest_ran(
    after: TpmState,
    before: TpmState,
    req: RequestView,
    r: TpmResult<Response>,
) -> bool {
    if req.code == cc::Certify {
        attest::attests(after, before, attest::certify_check(before, req), 2, 2, r)
    } else if req.code == cc::CertifyCreation {
        attest::attests(after, before, attest::certify_creation_check(before, req), 1, 3, r)
    } else if req.code == cc::Quote {
        attest::attests(after, before, attest::quote_check(before, req), 1, 2, r)
    } else if req.code == cc::GetTime {
        attest::attests(after, before, attest::get_time_check(before, req), 2, 2, r)
    } else if req.code == cc::GetSessionAuditDigest {
        attest::attests(after, before, attest::session_audit_check(before, req), 2, 2, r)
    } else if req.code == cc::GetCommandAuditDigest {
        attest::get_command_audit_digest_ran(after, before, req, r)
    } else if req.code == cc::SetCommandCodeAuditStatus {
        attest::set_command_code_audit_status_ran(after, before, req, r)
    } else {
        policy_ran(after, before, req, r)
    }
}

/// Attestation and audit.
fn run_attest(state: &mut TpmState, request: &Request) -> (r: TpmResult<Response>)
    requires
        old(state).wf(),
    ensures
        final(state).wf(),
        attest_ran(*final(state), *old(state), request@, r),
{
    proof {
        reveal(attest_ran);
    }
    if request.code == cc::Certify {
        return attest::certify(state, request);
    }
    if request.code == cc::CertifyCreation {
        return attest::certify_creation(state, request);
    }
    if request.code == cc::Quote {
        return attest::quote(state, request);
    }
    if request.code == cc::GetTime {
        return attest::get_time(state, request);
    }
    if request.code == cc::GetSessionAuditDigest {
        return attest::get_session_audit_digest(state, request);
    }
    if request.code == cc::GetCommandAuditDigest {
        return attest::get_command_audit_digest(state, request);
    }
    if request.code == cc::SetCommandCodeAuditStatus {
        return attest::set_command_code_audit_status(state, request);
    }
    run_policy(state, request)
}

/// Policies. Another code is looked for further on.
#[verifier::opaque]
pub open spec fn policy_ran(
    after: TpmState,
    before: TpmState,
    req: RequestView,
    r: TpmResult<Response>,
) -> bool {
    if req.code == cc::PolicyOR {
        policy::concluded(after, before, policy::policy_or_outcome(before, req), r)
    } else if req.code == cc::PolicyPCR {
        policy::concluded(after, before, policy::policy_pcr_outcome(before, req), r)
    } else if req.code == cc::PolicyLocality {
        policy::concluded(after, before, policy::policy_locality_outcome(before, req), r)
    } else if req.code == cc::PolicyCommandCode {
        policy::concluded( after, before, policy::policy_command_code_outcome(before, req), r, )
    } else if req.code == cc::PolicyPhysicalPresence {
        policy::concluded( after, before, policy::policy_physical_presence_outcome(before, req), r, )
    } else if req.code == cc::PolicyAuthValue {
        policy::concluded(after, before, policy::policy_auth_value_outcome(before, req), r)
    } else if req.code == cc::PolicyPassword {
        policy::concluded(after, before, policy::policy_password_outcome(before, req), r)
    } else if req.code == cc::PolicyTransportSPDM {
        policy::concluded( after, before, policy::policy_transport_spdm_outcome(before, req), r, )
    } else if req.code == cc::PolicyCpHash {
        policy::concluded(after, before, policy::policy_cp_hash_outcome(before, req), r)
    } else if req.code == cc::PolicyNameHash {
        policy::concluded(after, before, policy::policy_name_hash_outcome(before, req), r)
    } else if req.code == cc::PolicyTemplate {
        policy::concluded(after, before, policy::policy_template_outcome(before, req), r)
    } else if req.code == cc::PolicyParameters {
        policy::concluded(after, before, policy::policy_parameters_outcome(before, req), r)
    } else if req.code == cc::PolicyGetDigest {
        &&& after == before
        &&& policy::policy_get_digest_ran(before, req, r)
    } else if req.code == cc::PolicyNvWritten {
        policy::concluded(after, before, policy::policy_nv_written_outcome(before, req), r)
    } else if req.code == cc::PolicyCounterTimer {
        policy::concluded( after, before, policy::policy_counter_timer_outcome(before, req), r, )
    } else if req.code == cc::PolicyDuplicationSelect {
        policy::concluded( after, before, policy::policy_duplication_select_outcome(before, req), r, )
    } else if req.code == cc::Policy_AC_SendSelect {
        policy::concluded( after, before, policy::policy_ac_send_select_outcome(before, req), r, )
    } else {
        authorization_ran(after, before, req, r)
    }
}

/// Policies.
fn run_policy(state: &mut TpmState, request: &Request) -> (r: TpmResult<Response>)
    requires
        old(state).wf(),
    ensures
        final(state).wf(),
        policy_ran(*final(state), *old(state), request@, r),
{
    proof {
        reveal(policy_ran);
    }
    if request.code == cc::PolicyOR {
        return policy::policy_or(state, request);
    }
    if request.code == cc::PolicyPCR {
        return policy::policy_pcr(state, request);
    }
    if request.code == cc::PolicyLocality {
        return policy::policy_locality(state, request);
    }
    if request.code == cc::PolicyCommandCode {
        return policy::policy_command_code(state, request);
    }
    if request.code == cc::PolicyPhysicalPresence {
        return policy::policy_physical_presence(state, request);
    }
    if request.code == cc::PolicyAuthValue {
        return policy::policy_auth_value(state, request);
    }
    if request.code == cc::PolicyPassword {
        return policy::policy_password(state, request);
    }
    if request.code == cc::PolicyTransportSPDM {
        return policy::policy_transport_spdm(state, request);
    }
    if request.code == cc::PolicyCpHash {
        return policy::policy_cp_hash(state, request);
    }
    if request.code == cc::PolicyNameHash {
        return policy::policy_name_hash(state, request);
    }
    if request.code == cc::PolicyTemplate {
        return policy::policy_template(state, request);
    }
    if request.code == cc::PolicyParameters {
        return policy::policy_parameters(state, request);
    }
    if request.code == cc::PolicyGetDigest {
        return policy::policy_get_digest(state, request);
    }
    if request.code == cc::PolicyNvWritten {
        return policy::policy_nv_written(state, request);
    }
    if request.code == cc::PolicyCounterTimer {
        return policy::policy_counter_timer(state, request);
    }
    if request.code == cc::PolicyDuplicationSelect {
        return policy::policy_duplication_select(state, request);
    }
    if request.code == cc::Policy_AC_SendSelect {
        return policy::policy_ac_send_select(state, request);
    }
    run_authorization(state, request)
}

/// Policies that another authorization decides. Another code is looked for nowhere else, and refused.
#[verifier::opaque]
pub open spec fn authorization_ran(
    after: TpmState,
    before: TpmState,
    req: RequestView,
    r: TpmResult<Response>,
) -> bool {
    if req.code == cc::PolicyNV {
        policy::concluded(after, before, policy::policy_nv_outcome(before, req), r)
    } else if req.code == cc::PolicyAuthorizeNV {
        policy::concluded(after, before, policy::policy_authorize_nv_outcome(before, req), r)
    } else if req.code == cc::PolicyCapability {
        policy::concluded(after, before, policy::policy_capability_outcome(before, req), r)
    } else if req.code == cc::PolicySigned {
        policy_authorization::settled(after, before, policy_authorization::policy_signed_outcome(before, req), r)
    } else if req.code == cc::PolicySecret {
        policy_authorization::settled(after, before, policy_authorization::policy_secret_outcome(before, req), r)
    } else if req.code == cc::PolicyTicket {
        policy::concluded( after, before, policy_authorization::policy_ticket_outcome(before, req), r, )
    } else if req.code == cc::PolicyAuthorize {
        policy::concluded( after, before, policy_authorization::policy_authorize_outcome(before, req), r, )
    } else {
        after == before && r == Err::<Response, TpmRc>(TpmRc(rc::COMMAND_CODE))
    }
}

/// Policies that another authorization decides.
fn run_authorization(state: &mut TpmState, request: &Request) -> (r: TpmResult<Response>)
    requires
        old(state).wf(),
    ensures
        final(state).wf(),
        authorization_ran(*final(state), *old(state), request@, r),
{
    proof {
        reveal(authorization_ran);
    }
    if request.code == cc::PolicyNV {
        return policy::policy_nv(state, request);
    }
    if request.code == cc::PolicyAuthorizeNV {
        return policy::policy_authorize_nv(state, request);
    }
    if request.code == cc::PolicyCapability {
        return policy::policy_capability(state, request);
    }
    if request.code == cc::PolicySigned {
        return policy_authorization::policy_signed(state, request);
    }
    if request.code == cc::PolicySecret {
        return policy_authorization::policy_secret(state, request);
    }
    if request.code == cc::PolicyTicket {
        return policy_authorization::policy_ticket(state, request);
    }
    if request.code == cc::PolicyAuthorize {
        return policy_authorization::policy_authorize(state, request);
    }
    Err(TpmRc(rc::COMMAND_CODE))
}

/// What a command does to the TPM and what it answers.
pub open spec fn ran(
    after: TpmState,
    before: TpmState,
    req: RequestView,
    r: TpmResult<Response>,
) -> bool {
    startup_ran(after, before, req, r)
}

/// Run the command a request names.
pub fn run_command(state: &mut TpmState, request: &Request) -> (r: TpmResult<Response>)
    requires
        old(state).wf(),
    ensures
        final(state).wf(),
        ran(*final(state), *old(state), request@, r),
{
    run_startup(state, request)
}

} // verus!
