//! What the log says of commands and responses.

use vstd::prelude::*;

use crate::console::arguments::join2;
use crate::tpm::commands::table::{place_from, COMMANDS, COMMAND_COUNT};
use crate::util::bytes::{be16, be32, read_be16, read_be32};
use crate::util::text::{decimal, decimal_of, encode_hex, hex_number, hex_octets, hex_of};

verus! {

/// The names of the commands, in the order of their codes.
pub const NAMES: [&'static str; 118] = [
    "TPM2_NV_UndefineSpaceSpecial",
    "TPM2_EvictControl",
    "TPM2_HierarchyControl",
    "TPM2_NV_UndefineSpace",
    "TPM2_ChangeEPS",
    "TPM2_ChangePPS",
    "TPM2_Clear",
    "TPM2_ClearControl",
    "TPM2_ClockSet",
    "TPM2_HierarchyChangeAuth",
    "TPM2_NV_DefineSpace",
    "TPM2_PCR_Allocate",
    "TPM2_PCR_SetAuthPolicy",
    "TPM2_PP_Commands",
    "TPM2_SetPrimaryPolicy",
    "TPM2_ClockRateAdjust",
    "TPM2_CreatePrimary",
    "TPM2_NV_GlobalWriteLock",
    "TPM2_GetCommandAuditDigest",
    "TPM2_NV_Increment",
    "TPM2_NV_SetBits",
    "TPM2_NV_Extend",
    "TPM2_NV_Write",
    "TPM2_NV_WriteLock",
    "TPM2_DictionaryAttackLockReset",
    "TPM2_DictionaryAttackParameters",
    "TPM2_NV_ChangeAuth",
    "TPM2_PCR_Event",
    "TPM2_PCR_Reset",
    "TPM2_SequenceComplete",
    "TPM2_SetAlgorithmSet",
    "TPM2_SetCommandCodeAuditStatus",
    "TPM2_IncrementalSelfTest",
    "TPM2_SelfTest",
    "TPM2_Startup",
    "TPM2_Shutdown",
    "TPM2_StirRandom",
    "TPM2_ActivateCredential",
    "TPM2_Certify",
    "TPM2_PolicyNV",
    "TPM2_CertifyCreation",
    "TPM2_Duplicate",
    "TPM2_GetTime",
    "TPM2_GetSessionAuditDigest",
    "TPM2_NV_Read",
    "TPM2_NV_ReadLock",
    "TPM2_ObjectChangeAuth",
    "TPM2_PolicySecret",
    "TPM2_Rewrap",
    "TPM2_Create",
    "TPM2_ECDH_ZGen",
    "TPM2_HMAC",
    "TPM2_Import",
    "TPM2_Load",
    "TPM2_Quote",
    "TPM2_RSA_Decrypt",
    "TPM2_HMAC_Start",
    "TPM2_SequenceUpdate",
    "TPM2_Sign",
    "TPM2_Unseal",
    "TPM2_PolicySigned",
    "TPM2_ContextLoad",
    "TPM2_ContextSave",
    "TPM2_ECDH_KeyGen",
    "TPM2_EncryptDecrypt",
    "TPM2_FlushContext",
    "TPM2_LoadExternal",
    "TPM2_MakeCredential",
    "TPM2_NV_ReadPublic",
    "TPM2_PolicyAuthorize",
    "TPM2_PolicyAuthValue",
    "TPM2_PolicyCommandCode",
    "TPM2_PolicyCounterTimer",
    "TPM2_PolicyCpHash",
    "TPM2_PolicyLocality",
    "TPM2_PolicyNameHash",
    "TPM2_PolicyOR",
    "TPM2_PolicyTicket",
    "TPM2_ReadPublic",
    "TPM2_RSA_Encrypt",
    "TPM2_StartAuthSession",
    "TPM2_VerifySignature",
    "TPM2_ECC_Parameters",
    "TPM2_GetCapability",
    "TPM2_GetRandom",
    "TPM2_GetTestResult",
    "TPM2_Hash",
    "TPM2_PCR_Read",
    "TPM2_PolicyPCR",
    "TPM2_PolicyRestart",
    "TPM2_ReadClock",
    "TPM2_PCR_Extend",
    "TPM2_PCR_SetAuthValue",
    "TPM2_NV_Certify",
    "TPM2_EventSequenceComplete",
    "TPM2_HashSequenceStart",
    "TPM2_PolicyPhysicalPresence",
    "TPM2_PolicyDuplicationSelect",
    "TPM2_PolicyGetDigest",
    "TPM2_TestParms",
    "TPM2_PolicyPassword",
    "TPM2_EC_Ephemeral",
    "TPM2_PolicyNvWritten",
    "TPM2_PolicyTemplate",
    "TPM2_CreateLoaded",
    "TPM2_PolicyAuthorizeNV",
    "TPM2_EncryptDecrypt2",
    "TPM2_AC_GetCapability",
    "TPM2_AC_Send",
    "TPM2_Policy_AC_SendSelect",
    "TPM2_ACT_SetTimeout",
    "TPM2_PolicyCapability",
    "TPM2_PolicyParameters",
    "TPM2_NV_DefineSpace2",
    "TPM2_NV_ReadPublic2",
    "TPM2_ReadOnlyControl",
    "TPM2_PolicyTransportSPDM",
    "TPM2_Vendor_TCG_Test",
];

/// The name of a command.
pub open spec fn name_of(code: u32) -> Seq<char> {
    match place_from(code, 0) {
        Some(i) => NAMES@[i]@,
        None => "Unknown"@,
    }
}

/// The name of a command.
pub fn name(code: u32) -> (r: &'static str)
    ensures
        r@ == name_of(code),
{
    let mut i: usize = 0;
    while i < COMMAND_COUNT
        invariant
            i <= COMMAND_COUNT,
            place_from(code, 0) == place_from(code, i as int),
        decreases COMMAND_COUNT - i,
    {
        if COMMANDS[i] == code {
            return NAMES[i];
        }
        i = i + 1;
    }
    "Unknown"
}

/// The tag and the size in a header.
pub open spec fn framing_text(d: Seq<u8>) -> Seq<char> {
    "tag=0x"@ + hex_of(be16(d, 0) as nat, 4) + " size="@ + decimal_of(be32(d, 2) as nat)
}

/// What the log says of a command besides its octets.
pub open spec fn command_text(d: Seq<u8>) -> Seq<char> {
    if d.len() < 10 {
        "short"@
    } else {
        framing_text(d) + " cc=0x"@ + hex_of(be32(d, 6) as nat, 8) + "("@ + name_of(be32(d, 6))
            + ")"@
    }
}

/// What the log says of a response besides its octets.
pub open spec fn response_text(d: Seq<u8>) -> Seq<char> {
    if d.len() < 10 {
        "short"@
    } else {
        framing_text(d) + " rc=0x"@ + hex_of(be32(d, 6) as nat, 8)
    }
}

/// The tag and the size in a header.
fn framing(buf: &[u8]) -> (r: String)
    requires
        buf@.len() >= 6,
    ensures
        r@ == framing_text(buf@),
{
    let tag: String = hex_number(read_be16(buf, 0) as u64, 4);
    let size: String = decimal(read_be32(buf, 2) as u64);
    let mut out: String = join2("tag=0x", tag.as_str());
    out.append(" size=");
    out.append(size.as_str());
    out
}

/// What the log says of a command besides its octets.
pub fn describe(buf: &[u8]) -> (r: String)
    ensures
        r@ == command_text(buf@),
{
    if buf.len() < 10 {
        return String::from_str("short");
    }
    let code: u32 = read_be32(buf, 6);
    let digits: String = hex_number(code as u64, 8);
    let mut out: String = framing(buf);
    out.append(" cc=0x");
    out.append(digits.as_str());
    out.append("(");
    out.append(name(code));
    out.append(")");
    out
}

/// What the log says of a response besides its octets.
pub fn describe_response(buf: &[u8]) -> (r: String)
    ensures
        r@ == response_text(buf@),
{
    if buf.len() < 10 {
        return String::from_str("short");
    }
    let digits: String = hex_number(read_be32(buf, 6) as u64, 8);
    let mut out: String = framing(buf);
    out.append(" rc=0x");
    out.append(digits.as_str());
    out
}

/// The line the log has for a command.
pub fn command_line(connection: u64, locality: u8, command: &[u8]) -> (r: String)
    ensures
        r@ == "conn="@ + decimal_of(connection as nat) + " locality="@ + decimal_of(locality as nat)
            + " "@ + command_text(command@) + " cmd  "@ + hex_octets(command@),
{
    let id: String = decimal(connection);
    let place: String = decimal(locality as u64);
    let header: String = describe(command);
    let octets: String = encode_hex(command);
    let mut out: String = join2("conn=", id.as_str());
    out.append(" locality=");
    out.append(place.as_str());
    out.append(" ");
    out.append(header.as_str());
    out.append(" cmd  ");
    out.append(octets.as_str());
    out
}

/// The line the log has for a response.
pub fn response_line(connection: u64, response: &[u8]) -> (r: String)
    ensures
        r@ == "conn="@ + decimal_of(connection as nat) + " "@ + response_text(response@) + " rsp  "@
            + hex_octets(response@),
{
    let id: String = decimal(connection);
    let header: String = describe_response(response);
    let octets: String = encode_hex(response);
    let mut out: String = join2("conn=", id.as_str());
    out.append(" ");
    out.append(header.as_str());
    out.append(" rsp  ");
    out.append(octets.as_str());
    out
}

/// The name of the file the records of a date go to.
pub fn file_name(date: &str) -> (r: String)
    ensures
        r@ == date@ + ".log"@,
{
    join2(date, ".log")
}

} // verus!
