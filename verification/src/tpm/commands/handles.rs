//! Handle interface types and authorization roles of the commands.
//!
//! Every command names the interface type of each of its handles, which fixes
//! the set of values that handle may take, and the authorization role of the
//! handles that need one.

use vstd::prelude::*;

use crate::tpm::constants::range::{
    is_base, is_hmac_session, is_nv, is_object, is_pcr, is_persistent, is_policy_session,
    is_session, is_transient,
};
use crate::tpm::constants::{cc, rh};

verus! {

/// The interface type of one handle.
#[derive(Debug, Clone, Copy, PartialEq, Eq, Structural)]
pub enum Kind {
    /// TPMI_DH_OBJECT, a loaded transient or persistent object.
    Object,
    /// TPMI_DH_PARENT, an object or a hierarchy.
    Parent,
    /// TPMI_DH_ENTITY, anything that can carry an authorization value.
    Entity,
    /// TPMI_DH_PCR.
    Pcr,
    /// TPMI_DH_CONTEXT, a session or a transient object.
    Context,
    /// TPMI_DH_PERSISTENT.
    Persistent,
    /// TPMI_SH_POLICY.
    PolicySession,
    /// TPMI_SH_HMAC.
    HmacSession,
    /// TPMI_SH_AUTH_SESSION.
    AuthSession,
    /// TPMI_RH_NV_INDEX and the Index types that narrow it.
    NvIndex,
    /// TPMI_RH_NV_AUTH: platform, owner or the Index itself.
    NvAuth,
    /// TPMI_RH_PLATFORM.
    Platform,
    /// TPMI_RH_OWNER.
    Owner,
    /// TPMI_RH_ENDORSEMENT.
    Endorsement,
    /// TPMI_RH_PROVISION: owner or platform.
    Provision,
    /// TPMI_RH_CLEAR: lockout or platform.
    Clear,
    /// TPMI_RH_LOCKOUT.
    Lockout,
    /// TPMI_RH_HIERARCHY.
    Hierarchy,
    /// TPMI_RH_HIERARCHY_AUTH.
    HierarchyAuth,
    /// TPMI_RH_HIERARCHY_POLICY.
    HierarchyPolicy,
    /// TPMI_RH_BASE_HIERARCHY.
    BaseHierarchy,
}

/// The authorization role of one handle.
#[derive(Debug, Clone, Copy, PartialEq, Eq, Structural)]
pub enum Role {
    /// The handle carries no authorization.
    NoAuth,
    /// USER role, which any authorization type may satisfy.
    User,
    /// ADMIN role.
    Admin,
    /// DUP role, which only a policy session may satisfy.
    Dup,
}

/// One handle of a command schematic.
///
/// `nullable` is the plus that follows an interface type, which means
/// TPM_RH_NULL is also allowed.
#[derive(Debug, Clone, Copy, PartialEq, Eq, Structural)]
pub struct Handle {
    pub kind: Kind,
    pub nullable: bool,
}

/// How many commands the schematics list.
pub const ROW_COUNT: usize = 112;

/// The commands the schematics list.
pub const ROW_CODES: [u32; 112] = [
    cc::ActivateCredential,
    cc::Certify,
    cc::CertifyCreation,
    cc::CertifyX509,
    cc::ChangeEPS,
    cc::ChangePPS,
    cc::Clear,
    cc::ClearControl,
    cc::ClockRateAdjust,
    cc::ClockSet,
    cc::Commit,
    cc::ContextSave,
    cc::Create,
    cc::CreateLoaded,
    cc::CreatePrimary,
    cc::Decapsulate,
    cc::DictionaryAttackLockReset,
    cc::DictionaryAttackParameters,
    cc::Duplicate,
    cc::ECC_Decrypt,
    cc::ECC_Encrypt,
    cc::ECDH_KeyGen,
    cc::ECDH_ZGen,
    cc::Encapsulate,
    cc::EncryptDecrypt,
    cc::EncryptDecrypt2,
    cc::EventSequenceComplete,
    cc::EvictControl,
    cc::FieldUpgradeStart,
    cc::GetCommandAuditDigest,
    cc::GetSessionAuditDigest,
    cc::GetTime,
    cc::HMAC,
    cc::HMAC_Start,
    cc::HierarchyChangeAuth,
    cc::HierarchyControl,
    cc::Import,
    cc::Load,
    cc::MAC,
    cc::MAC_Start,
    cc::MakeCredential,
    cc::NV_Certify,
    cc::NV_ChangeAuth,
    cc::NV_DefineSpace,
    cc::NV_DefineSpace2,
    cc::NV_Extend,
    cc::NV_GlobalWriteLock,
    cc::NV_Increment,
    cc::NV_Read,
    cc::NV_ReadLock,
    cc::NV_ReadPublic,
    cc::NV_ReadPublic2,
    cc::NV_SetBits,
    cc::NV_UndefineSpace,
    cc::NV_UndefineSpaceSpecial,
    cc::NV_Write,
    cc::NV_WriteLock,
    cc::ObjectChangeAuth,
    cc::PCR_Allocate,
    cc::PCR_Event,
    cc::PCR_Extend,
    cc::PCR_Reset,
    cc::PCR_SetAuthPolicy,
    cc::PCR_SetAuthValue,
    cc::PP_Commands,
    cc::PolicyAuthValue,
    cc::PolicyAuthorize,
    cc::PolicyAuthorizeNV,
    cc::PolicyCapability,
    cc::PolicyCommandCode,
    cc::PolicyCounterTimer,
    cc::PolicyCpHash,
    cc::PolicyDuplicationSelect,
    cc::PolicyGetDigest,
    cc::PolicyLocality,
    cc::PolicyNV,
    cc::PolicyNameHash,
    cc::PolicyNvWritten,
    cc::PolicyOR,
    cc::PolicyPCR,
    cc::PolicyParameters,
    cc::PolicyPassword,
    cc::PolicyPhysicalPresence,
    cc::PolicyRestart,
    cc::PolicySecret,
    cc::PolicySigned,
    cc::PolicyTemplate,
    cc::PolicyTicket,
    cc::PolicyTransportSPDM,
    cc::Policy_AC_SendSelect,
    cc::Quote,
    cc::RSA_Decrypt,
    cc::RSA_Encrypt,
    cc::ReadOnlyControl,
    cc::ReadPublic,
    cc::Rewrap,
    cc::SequenceComplete,
    cc::SequenceUpdate,
    cc::SetAlgorithmSet,
    cc::SetCapability,
    cc::SetCommandCodeAuditStatus,
    cc::Sign,
    cc::SignDigest,
    cc::SignSequenceComplete,
    cc::SignSequenceStart,
    cc::StartAuthSession,
    cc::Unseal,
    cc::VerifyDigestSignature,
    cc::VerifySequenceComplete,
    cc::VerifySequenceStart,
    cc::VerifySignature,
    cc::ZGen_2Phase,
];

/// One octet for each handle, the first in the lowest octet: the number of the
/// interface type, a bit for the plus and two bits for the role.
pub const ROW_HANDLES: [u32; 112] = [
    0x004181,
    0x006181,
    0x000161,
    0x004181,
    0x00004C,
    0x00004C,
    0x000050,
    0x000050,
    0x00004F,
    0x00004F,
    0x000041,
    0x000005,
    0x000041,
    0x000042,
    0x000052,
    0x000041,
    0x005111,
    0x005111,
    0x0021C1,
    0x000041,
    0x000001,
    0x000001,
    0x000041,
    0x000001,
    0x000041,
    0x000041,
    0x004164,
    0x00014F,
    0x00018C,
    0x00614E,
    0x08614E,
    0x00614E,
    0x000041,
    0x000041,
    0x000053,
    0x000055,
    0x000041,
    0x000041,
    0x000041,
    0x000041,
    0x000001,
    0x0A4B61,
    0x00008A,
    0x00004F,
    0x00004F,
    0x000A4B,
    0x00004F,
    0x000A4B,
    0x000A4B,
    0x000A4B,
    0x00000A,
    0x00000A,
    0x000A4B,
    0x000A4F,
    0x004C8A,
    0x000A4B,
    0x000A4B,
    0x000181,
    0x00004C,
    0x000064,
    0x000064,
    0x000044,
    0x00004C,
    0x000044,
    0x00004C,
    0x000007,
    0x000007,
    0x070A4B,
    0x000007,
    0x000007,
    0x000007,
    0x000007,
    0x000007,
    0x000007,
    0x000007,
    0x070A4B,
    0x000007,
    0x000007,
    0x000007,
    0x000007,
    0x000007,
    0x000007,
    0x000007,
    0x000007,
    0x000743,
    0x000701,
    0x000007,
    0x000007,
    0x000007,
    0x000007,
    0x000061,
    0x000041,
    0x000001,
    0x00004C,
    0x000001,
    0x002161,
    0x000041,
    0x000041,
    0x004C0C,
    0x000073,
    0x00004F,
    0x000041,
    0x000041,
    0x004141,
    0x000001,
    0x002321,
    0x000041,
    0x000001,
    0x000141,
    0x000001,
    0x000001,
    0x000041,
];

/// The first row of `code` at or after `i`.
pub open spec fn row_from(code: u32, i: int) -> Option<u32>
    decreases ROW_COUNT - i,
{
    if i >= ROW_COUNT {
        None
    } else if ROW_CODES@[i] == code {
        Some(ROW_HANDLES@[i])
    } else {
        row_from(code, i + 1)
    }
}

/// The octet of the handle at `index`, and zero where there is none.
pub open spec fn octet_of(code: u32, index: int) -> u8 {
    match row_from(code, 0) {
        Some(row) => if index == 0 {
            row as u8
        } else if index == 1 {
            (row >> 8) as u8
        } else if index == 2 {
            (row >> 16) as u8
        } else {
            0
        },
        None => 0,
    }
}

/// The interface type with a number.
pub open spec fn kind_numbered(number: u8) -> Kind {
    if number == 1 {
        Kind::Object
    } else if number == 2 {
        Kind::Parent
    } else if number == 3 {
        Kind::Entity
    } else if number == 4 {
        Kind::Pcr
    } else if number == 5 {
        Kind::Context
    } else if number == 6 {
        Kind::Persistent
    } else if number == 7 {
        Kind::PolicySession
    } else if number == 8 {
        Kind::HmacSession
    } else if number == 9 {
        Kind::AuthSession
    } else if number == 10 {
        Kind::NvIndex
    } else if number == 11 {
        Kind::NvAuth
    } else if number == 12 {
        Kind::Platform
    } else if number == 13 {
        Kind::Owner
    } else if number == 14 {
        Kind::Endorsement
    } else if number == 15 {
        Kind::Provision
    } else if number == 16 {
        Kind::Clear
    } else if number == 17 {
        Kind::Lockout
    } else if number == 18 {
        Kind::Hierarchy
    } else if number == 19 {
        Kind::HierarchyAuth
    } else if number == 20 {
        Kind::HierarchyPolicy
    } else {
        Kind::BaseHierarchy
    }
}

/// The role with a number.
pub open spec fn role_numbered(number: u8) -> Role {
    if number == 0 {
        Role::NoAuth
    } else if number == 1 {
        Role::User
    } else if number == 2 {
        Role::Admin
    } else {
        Role::Dup
    }
}

/// The handle the schematic gives position `index`, counting from zero.
#[verifier::opaque]
pub open spec fn kind_of(code: u32, index: int) -> Option<Handle> {
    let o = octet_of(code, index);
    if o == 0 {
        None
    } else {
        Some(Handle { kind: kind_numbered(o & 0x1F), nullable: o & 0x20 != 0 })
    }
}

/// The role the schematic gives the handle at `index`.
#[verifier::opaque]
pub open spec fn role_of(code: u32, index: int) -> Role {
    let o = octet_of(code, index);
    if o == 0 {
        Role::User
    } else {
        role_numbered(o >> 6)
    }
}

/// The octet of the handle at `index`, and zero where there is none.
fn octet(code: u32, index: usize) -> (r: u8)
    ensures
        r == octet_of(code, index as int),
{
    let mut i: usize = 0;
    while i < ROW_COUNT
        invariant
            i <= ROW_COUNT,
            row_from(code, 0) == row_from(code, i as int),
        decreases ROW_COUNT - i,
    {
        if ROW_CODES[i] == code {
            let row: u32 = ROW_HANDLES[i];
            return if index == 0 {
                row as u8
            } else if index == 1 {
                (row >> 8) as u8
            } else if index == 2 {
                (row >> 16) as u8
            } else {
                0
            };
        }
        i = i + 1;
    }
    0
}

/// The interface type with a number.
fn numbered_kind(number: u8) -> (r: Kind)
    ensures
        r == kind_numbered(number),
{
    if number == 1 {
        Kind::Object
    } else if number == 2 {
        Kind::Parent
    } else if number == 3 {
        Kind::Entity
    } else if number == 4 {
        Kind::Pcr
    } else if number == 5 {
        Kind::Context
    } else if number == 6 {
        Kind::Persistent
    } else if number == 7 {
        Kind::PolicySession
    } else if number == 8 {
        Kind::HmacSession
    } else if number == 9 {
        Kind::AuthSession
    } else if number == 10 {
        Kind::NvIndex
    } else if number == 11 {
        Kind::NvAuth
    } else if number == 12 {
        Kind::Platform
    } else if number == 13 {
        Kind::Owner
    } else if number == 14 {
        Kind::Endorsement
    } else if number == 15 {
        Kind::Provision
    } else if number == 16 {
        Kind::Clear
    } else if number == 17 {
        Kind::Lockout
    } else if number == 18 {
        Kind::Hierarchy
    } else if number == 19 {
        Kind::HierarchyAuth
    } else if number == 20 {
        Kind::HierarchyPolicy
    } else {
        Kind::BaseHierarchy
    }
}

/// The handle the schematic gives position `index`, counting from zero.
pub fn kind(code: u32, index: usize) -> (r: Option<Handle>)
    ensures
        r == kind_of(code, index as int),
{
    proof {
        reveal(kind_of);
    }
    let o: u8 = octet(code, index);
    if o == 0 {
        None
    } else {
        Some(Handle { kind: numbered_kind(o & 0x1F), nullable: o & 0x20 != 0 })
    }
}

/// The authorization role of the handle at `index`, counting from zero.
///
/// A command this table does not name, or a handle past the ones it lists,
/// takes the USER role, which is what the great majority of handles have.
pub fn role(code: u32, index: usize) -> (r: Role)
    ensures
        r == role_of(code, index as int),
{
    proof {
        reveal(role_of);
    }
    let o: u8 = octet(code, index);
    if o == 0 {
        Role::User
    } else {
        let number: u8 = o >> 6;
        if number == 0 {
            Role::NoAuth
        } else if number == 1 {
            Role::User
        } else if number == 2 {
            Role::Admin
        } else {
            Role::Dup
        }
    }
}

/// True when `handle` is a value the interface type allows.
#[verifier::opaque]
pub open spec fn allowed(h: Handle, handle: u32) -> bool {
    if h.nullable && handle == rh::NULL {
        true
    } else {
        match h.kind {
            Kind::Object => is_object(handle),
            Kind::Persistent => is_persistent(handle),
            Kind::Parent => is_object(handle) || is_base(handle) || handle == rh::NULL,
            Kind::Entity => is_object(handle) || is_nv(handle) || is_pcr(handle) || is_base(handle)
                || handle == rh::LOCKOUT || handle == rh::NULL,
            Kind::Pcr => is_pcr(handle),
            Kind::Context => is_session(handle) || is_transient(handle),
            Kind::PolicySession => is_policy_session(handle),
            Kind::HmacSession => is_hmac_session(handle),
            Kind::AuthSession => is_session(handle) || handle == rh::RS_PW,
            Kind::NvIndex => is_nv(handle),
            Kind::NvAuth => handle == rh::PLATFORM || handle == rh::OWNER || is_nv(handle),
            Kind::Platform => handle == rh::PLATFORM,
            Kind::Owner => handle == rh::OWNER || handle == rh::NULL,
            Kind::Endorsement => handle == rh::ENDORSEMENT || handle == rh::NULL,
            Kind::Provision => handle == rh::OWNER || handle == rh::PLATFORM,
            Kind::Clear => handle == rh::LOCKOUT || handle == rh::PLATFORM,
            Kind::Lockout => handle == rh::LOCKOUT,
            Kind::Hierarchy => is_base(handle) || handle == rh::NULL,
            Kind::HierarchyAuth | Kind::HierarchyPolicy => is_base(handle) || handle == rh::LOCKOUT,
            Kind::BaseHierarchy => is_base(handle),
        }
    }
}

/// True when `handle` is a value the interface type allows.
///
/// Only the shape of the handle is judged here. Whether the entity exists is
/// the business of the command, which reports TPM_RC_HANDLE or
/// TPM_RC_REFERENCE for a value that is well formed but absent.
pub fn allows(h: Handle, handle: u32) -> (r: bool)
    ensures
        r == allowed(h, handle),
{
    proof {
        reveal(allowed);
    }
    if h.nullable && handle == rh::NULL {
        true
    } else {
        match h.kind {
            Kind::Object => is_object(handle),
            Kind::Persistent => is_persistent(handle),
            Kind::Parent => is_object(handle) || is_base(handle) || handle == rh::NULL,
            Kind::Entity => is_object(handle) || is_nv(handle) || is_pcr(handle) || is_base(handle)
                || handle == rh::LOCKOUT || handle == rh::NULL,
            Kind::Pcr => is_pcr(handle),
            Kind::Context => is_session(handle) || is_transient(handle),
            Kind::PolicySession => is_policy_session(handle),
            Kind::HmacSession => is_hmac_session(handle),
            Kind::AuthSession => is_session(handle) || handle == rh::RS_PW,
            Kind::NvIndex => is_nv(handle),
            Kind::NvAuth => handle == rh::PLATFORM || handle == rh::OWNER || is_nv(handle),
            Kind::Platform => handle == rh::PLATFORM,
            Kind::Owner => handle == rh::OWNER || handle == rh::NULL,
            Kind::Endorsement => handle == rh::ENDORSEMENT || handle == rh::NULL,
            Kind::Provision => handle == rh::OWNER || handle == rh::PLATFORM,
            Kind::Clear => handle == rh::LOCKOUT || handle == rh::PLATFORM,
            Kind::Lockout => handle == rh::LOCKOUT,
            Kind::Hierarchy => is_base(handle) || handle == rh::NULL,
            Kind::HierarchyAuth | Kind::HierarchyPolicy => is_base(handle) || handle == rh::LOCKOUT,
            Kind::BaseHierarchy => is_base(handle),
        }
    }
}

/// Which way a command reaches the data of an Index.
#[derive(Debug, Clone, Copy, PartialEq, Eq, Structural)]
pub enum NvAccess {
    Write,
    Read,
}

/// How a command that an Index may authorize itself reaches that Index.
#[verifier::opaque]
pub open spec fn access_of(code: u32) -> Option<NvAccess> {
    if code == cc::NV_Write || code == cc::NV_Increment || code == cc::NV_Extend || code
        == cc::NV_SetBits || code == cc::NV_WriteLock {
        Some(NvAccess::Write)
    } else if code == cc::NV_Read || code == cc::NV_ReadLock || code == cc::NV_Certify || code
        == cc::PolicyNV || code == cc::PolicyAuthorizeNV {
        Some(NvAccess::Read)
    } else {
        None
    }
}

/// How a command that an Index may authorize itself reaches that Index.
pub fn nv_access(code: u32) -> (r: Option<NvAccess>)
    ensures
        r == access_of(code),
{
    proof {
        reveal(access_of);
    }
    if code == cc::NV_Write || code == cc::NV_Increment || code == cc::NV_Extend || code
        == cc::NV_SetBits || code == cc::NV_WriteLock {
        Some(NvAccess::Write)
    } else if code == cc::NV_Read || code == cc::NV_ReadLock || code == cc::NV_Certify || code
        == cc::PolicyNV || code == cc::PolicyAuthorizeNV {
        Some(NvAccess::Read)
    } else {
        None
    }
}

/// True for a command whose schematic has no parameters.
#[verifier::opaque]
pub open spec fn without_parameters(code: u32) -> bool {
    code == cc::GetTestResult || code == cc::ReadClock || code == cc::ChangePPS || code
        == cc::ChangeEPS || code == cc::Clear || code == cc::DictionaryAttackLockReset || code
        == cc::NV_UndefineSpace || code == cc::NV_UndefineSpaceSpecial || code == cc::NV_ReadPublic
        || code == cc::NV_ReadPublic2 || code == cc::NV_Increment || code == cc::NV_WriteLock || code
        == cc::NV_ReadLock || code == cc::NV_GlobalWriteLock || code == cc::PCR_Reset || code
        == cc::PolicyRestart || code == cc::PolicyPhysicalPresence || code == cc::PolicyAuthValue
        || code == cc::PolicyPassword || code == cc::PolicyGetDigest || code == cc::ReadPublic
        || code == cc::Unseal || code == cc::ECDH_KeyGen || code == cc::ContextSave
}

/// True for a command whose schematic has no parameters.
pub fn takes_no_parameters(code: u32) -> (r: bool)
    ensures
        r == without_parameters(code),
{
    proof {
        reveal(without_parameters);
    }
    code == cc::GetTestResult || code == cc::ReadClock || code == cc::ChangePPS || code
        == cc::ChangeEPS || code == cc::Clear || code == cc::DictionaryAttackLockReset || code
        == cc::NV_UndefineSpace || code == cc::NV_UndefineSpaceSpecial || code == cc::NV_ReadPublic
        || code == cc::NV_ReadPublic2 || code == cc::NV_Increment || code == cc::NV_WriteLock || code
        == cc::NV_ReadLock || code == cc::NV_GlobalWriteLock || code == cc::PCR_Reset || code
        == cc::PolicyRestart || code == cc::PolicyPhysicalPresence || code == cc::PolicyAuthValue
        || code == cc::PolicyPassword || code == cc::PolicyGetDigest || code == cc::ReadPublic
        || code == cc::Unseal || code == cc::ECDH_KeyGen || code == cc::ContextSave
}

} // verus!
