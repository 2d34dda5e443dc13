//! The commands this TPM implements.

use vstd::prelude::*;

use crate::tpm::constants::cc;

verus! {

/// How many commands there are.
pub const COMMAND_COUNT: usize = 118;

/// How many of them the library defines. The others are the vendor's.
pub const LIBRARY_COUNT: usize = 117;

/// The command codes, ascending.
pub const COMMANDS: [u32; 118] = [
    cc::NV_UndefineSpaceSpecial,
    cc::EvictControl,
    cc::HierarchyControl,
    cc::NV_UndefineSpace,
    cc::ChangeEPS,
    cc::ChangePPS,
    cc::Clear,
    cc::ClearControl,
    cc::ClockSet,
    cc::HierarchyChangeAuth,
    cc::NV_DefineSpace,
    cc::PCR_Allocate,
    cc::PCR_SetAuthPolicy,
    cc::PP_Commands,
    cc::SetPrimaryPolicy,
    cc::ClockRateAdjust,
    cc::CreatePrimary,
    cc::NV_GlobalWriteLock,
    cc::GetCommandAuditDigest,
    cc::NV_Increment,
    cc::NV_SetBits,
    cc::NV_Extend,
    cc::NV_Write,
    cc::NV_WriteLock,
    cc::DictionaryAttackLockReset,
    cc::DictionaryAttackParameters,
    cc::NV_ChangeAuth,
    cc::PCR_Event,
    cc::PCR_Reset,
    cc::SequenceComplete,
    cc::SetAlgorithmSet,
    cc::SetCommandCodeAuditStatus,
    cc::IncrementalSelfTest,
    cc::SelfTest,
    cc::Startup,
    cc::Shutdown,
    cc::StirRandom,
    cc::ActivateCredential,
    cc::Certify,
    cc::PolicyNV,
    cc::CertifyCreation,
    cc::Duplicate,
    cc::GetTime,
    cc::GetSessionAuditDigest,
    cc::NV_Read,
    cc::NV_ReadLock,
    cc::ObjectChangeAuth,
    cc::PolicySecret,
    cc::Rewrap,
    cc::Create,
    cc::ECDH_ZGen,
    cc::HMAC,
    cc::Import,
    cc::Load,
    cc::Quote,
    cc::RSA_Decrypt,
    cc::HMAC_Start,
    cc::SequenceUpdate,
    cc::Sign,
    cc::Unseal,
    cc::PolicySigned,
    cc::ContextLoad,
    cc::ContextSave,
    cc::ECDH_KeyGen,
    cc::EncryptDecrypt,
    cc::FlushContext,
    cc::LoadExternal,
    cc::MakeCredential,
    cc::NV_ReadPublic,
    cc::PolicyAuthorize,
    cc::PolicyAuthValue,
    cc::PolicyCommandCode,
    cc::PolicyCounterTimer,
    cc::PolicyCpHash,
    cc::PolicyLocality,
    cc::PolicyNameHash,
    cc::PolicyOR,
    cc::PolicyTicket,
    cc::ReadPublic,
    cc::RSA_Encrypt,
    cc::StartAuthSession,
    cc::VerifySignature,
    cc::ECC_Parameters,
    cc::GetCapability,
    cc::GetRandom,
    cc::GetTestResult,
    cc::Hash,
    cc::PCR_Read,
    cc::PolicyPCR,
    cc::PolicyRestart,
    cc::ReadClock,
    cc::PCR_Extend,
    cc::PCR_SetAuthValue,
    cc::NV_Certify,
    cc::EventSequenceComplete,
    cc::HashSequenceStart,
    cc::PolicyPhysicalPresence,
    cc::PolicyDuplicationSelect,
    cc::PolicyGetDigest,
    cc::TestParms,
    cc::PolicyPassword,
    cc::EC_Ephemeral,
    cc::PolicyNvWritten,
    cc::PolicyTemplate,
    cc::CreateLoaded,
    cc::PolicyAuthorizeNV,
    cc::EncryptDecrypt2,
    cc::AC_GetCapability,
    cc::AC_Send,
    cc::Policy_AC_SendSelect,
    cc::ACT_SetTimeout,
    cc::PolicyCapability,
    cc::PolicyParameters,
    cc::NV_DefineSpace2,
    cc::NV_ReadPublic2,
    cc::ReadOnlyControl,
    cc::PolicyTransportSPDM,
    cc::Vendor_TCG_Test,
];

/// One word for each command: the handles in its handle area, how many of them
/// carry an authorization, and whether it may write NV, may flush what the
/// caller loaded, completes a sequence or answers with a handle.
pub const ROWS: [u16; 118] = [
    0x0122,
    0x0112,
    0x0311,
    0x0112,
    0x0311,
    0x0311,
    0x0311,
    0x0111,
    0x0111,
    0x0111,
    0x0111,
    0x0111,
    0x0111,
    0x0111,
    0x0111,
    0x0011,
    0x0811,
    0x0111,
    0x0122,
    0x0112,
    0x0112,
    0x0112,
    0x0112,
    0x0112,
    0x0111,
    0x0111,
    0x0111,
    0x0111,
    0x0111,
    0x0411,
    0x0111,
    0x0111,
    0x0100,
    0x0100,
    0x0100,
    0x0100,
    0x0100,
    0x0022,
    0x0022,
    0x0013,
    0x0012,
    0x0012,
    0x0022,
    0x0023,
    0x0012,
    0x0112,
    0x0012,
    0x0012,
    0x0012,
    0x0011,
    0x0011,
    0x0011,
    0x0011,
    0x0811,
    0x0011,
    0x0011,
    0x0811,
    0x0011,
    0x0011,
    0x0011,
    0x0002,
    0x0800,
    0x0001,
    0x0001,
    0x0011,
    0x0000,
    0x0800,
    0x0001,
    0x0001,
    0x0001,
    0x0001,
    0x0001,
    0x0001,
    0x0001,
    0x0001,
    0x0001,
    0x0001,
    0x0001,
    0x0001,
    0x0001,
    0x0802,
    0x0001,
    0x0000,
    0x0000,
    0x0000,
    0x0000,
    0x0000,
    0x0000,
    0x0001,
    0x0001,
    0x0000,
    0x0111,
    0x0111,
    0x0023,
    0x0522,
    0x0800,
    0x0001,
    0x0001,
    0x0001,
    0x0000,
    0x0001,
    0x0000,
    0x0001,
    0x0001,
    0x0811,
    0x0013,
    0x0011,
    0x0001,
    0x0023,
    0x0001,
    0x0011,
    0x0001,
    0x0001,
    0x0111,
    0x0001,
    0x0111,
    0x0001,
    0x0000,
];

/// What the dispatcher knows of one command.
#[derive(Debug, Clone, Copy, PartialEq, Eq, Structural)]
pub struct CommandInfo {
    pub code: u32,
    /// Handles in the handle area.
    pub handles: usize,
    /// How many of the leading handles carry an authorization.
    pub auth_handles: usize,
    /// The command may write NV.
    pub nv: bool,
    /// The command may flush any number of loaded contexts.
    pub extensive: bool,
    /// The command flushes the sequence its handle area names.
    pub flushed: bool,
    /// The response leads with a handle.
    pub response_handle: bool,
}

/// The command a code and its word describe.
pub open spec fn info_of(code: u32, row: u16) -> CommandInfo {
    CommandInfo {
        code,
        handles: (row & 0x0007) as usize,
        auth_handles: ((row & 0x0070) >> 4) as usize,
        nv: row & 0x0100 != 0,
        extensive: row & 0x0200 != 0,
        flushed: row & 0x0400 != 0,
        response_handle: row & 0x0800 != 0,
    }
}

/// The first place of `code` at or after `i`.
pub open spec fn place_from(code: u32, i: int) -> Option<int>
    decreases COMMAND_COUNT - i,
{
    if i >= COMMAND_COUNT {
        None
    } else if COMMANDS@[i] == code {
        Some(i)
    } else {
        place_from(code, i + 1)
    }
}

/// What the table says of `code`.
pub open spec fn found(code: u32) -> Option<CommandInfo> {
    match place_from(code, 0) {
        Some(i) => Some(info_of(code, ROWS@[i])),
        None => None,
    }
}

/// The command at place `i`.
pub fn at(i: usize) -> (r: CommandInfo)
    requires
        i < COMMAND_COUNT,
    ensures
        r == info_of(COMMANDS@[i as int], ROWS@[i as int]),
        r.handles <= 7,
        r.auth_handles <= 7,
{
    let row: u16 = ROWS[i];
    assert(row & 0x0007 <= 7 && (row & 0x0070) >> 4 <= 7) by (bit_vector);
    CommandInfo {
        code: COMMANDS[i],
        handles: (row & 0x0007) as usize,
        auth_handles: ((row & 0x0070) >> 4) as usize,
        nv: row & 0x0100 != 0,
        extensive: row & 0x0200 != 0,
        flushed: row & 0x0400 != 0,
        response_handle: row & 0x0800 != 0,
    }
}

/// What the table says of `code`.
pub fn lookup(code: u32) -> (r: Option<CommandInfo>)
    ensures
        r == found(code),
        r matches Some(i) ==> i.handles <= 7 && i.auth_handles <= 7,
{
    let mut i: usize = 0;
    while i < COMMAND_COUNT
        invariant
            i <= COMMAND_COUNT,
            place_from(code, 0) == place_from(code, i as int),
        decreases COMMAND_COUNT - i,
    {
        if COMMANDS[i] == code {
            return Some(at(i));
        }
        i = i + 1;
    }
    None
}

/// TPMA_CC of a command.
pub open spec fn attributes_of(info: CommandInfo) -> u32 {
    (info.code & 0xFFFF) | (if info.nv {
        0x0040_0000u32
    } else {
        0
    }) | (if info.extensive {
        0x0080_0000u32
    } else {
        0
    }) | (if info.flushed {
        0x0100_0000u32
    } else {
        0
    }) | ((info.handles as u32) << 25) | (if info.response_handle {
        0x1000_0000u32
    } else {
        0
    }) | (if info.code >= 0x2000_0000 {
        0x2000_0000u32
    } else {
        0
    })
}

/// TPMA_CC of a command.
pub fn attributes(info: CommandInfo) -> (r: u32)
    ensures
        r == attributes_of(info),
{
    (info.code & 0xFFFF) | (if info.nv {
        0x0040_0000u32
    } else {
        0
    }) | (if info.extensive {
        0x0080_0000u32
    } else {
        0
    }) | (if info.flushed {
        0x0100_0000u32
    } else {
        0
    }) | ((info.handles as u32) << 25) | (if info.response_handle {
        0x1000_0000u32
    } else {
        0
    }) | (if info.code >= 0x2000_0000 {
        0x2000_0000u32
    } else {
        0
    })
}

/// True for a command TPM2_ReadOnlyControl takes away: one that writes NV and
/// is not needed to run or leave the mode.
pub open spec fn read_only_refuses(code: u32) -> bool {
    (found(code) matches Some(info) && info.nv) && !(code == cc::Startup || code == cc::Shutdown
        || code == cc::SelfTest || code == cc::IncrementalSelfTest || code == cc::ReadOnlyControl
        || code == cc::PCR_Extend || code == cc::PCR_Event || code == cc::PCR_Reset || code
        == cc::EventSequenceComplete || code == cc::StirRandom || code == cc::GetCommandAuditDigest
        || code == cc::DictionaryAttackLockReset || code == cc::NV_ReadLock) && !read_only_volatile(
        code,
    )
}

/// True for a command that in read-only mode may still change an Index that
/// lives in memory alone.
pub open spec fn read_only_volatile(code: u32) -> bool {
    code == cc::NV_Write || code == cc::NV_Increment || code == cc::NV_Extend || code
        == cc::NV_SetBits || code == cc::NV_WriteLock
}

/// True for a command TPM2_ReadOnlyControl takes away.
pub fn refused_when_read_only(code: u32) -> (r: bool)
    ensures
        r == read_only_refuses(code),
{
    let writes: bool = match lookup(code) {
        Some(info) => info.nv,
        None => false,
    };
    writes && !(code == cc::Startup || code == cc::Shutdown || code == cc::SelfTest || code
        == cc::IncrementalSelfTest || code == cc::ReadOnlyControl || code == cc::PCR_Extend || code
        == cc::PCR_Event || code == cc::PCR_Reset || code == cc::EventSequenceComplete || code
        == cc::StirRandom || code == cc::GetCommandAuditDigest || code
        == cc::DictionaryAttackLockReset || code == cc::NV_ReadLock)
        && !read_only_needs_a_volatile_index(code)
}

/// True for a command that in read-only mode may still change an Index that
/// lives in memory alone.
pub fn read_only_needs_a_volatile_index(code: u32) -> (r: bool)
    ensures
        r == read_only_volatile(code),
{
    code == cc::NV_Write || code == cc::NV_Increment || code == cc::NV_Extend || code
        == cc::NV_SetBits || code == cc::NV_WriteLock
}

} // verus!
