//! TPM_CC.

#![allow(non_upper_case_globals)]

use vstd::prelude::*;

verus! {

pub const NV_UndefineSpaceSpecial: u32 = 0x0000011F;
pub const EvictControl: u32 = 0x00000120;
pub const HierarchyControl: u32 = 0x00000121;
pub const NV_UndefineSpace: u32 = 0x00000122;
pub const ChangeEPS: u32 = 0x00000124;
pub const ChangePPS: u32 = 0x00000125;
pub const Clear: u32 = 0x00000126;
pub const ClearControl: u32 = 0x00000127;
pub const ClockSet: u32 = 0x00000128;
pub const HierarchyChangeAuth: u32 = 0x00000129;
pub const NV_DefineSpace: u32 = 0x0000012A;
pub const PCR_Allocate: u32 = 0x0000012B;
pub const PCR_SetAuthPolicy: u32 = 0x0000012C;
pub const PP_Commands: u32 = 0x0000012D;
pub const SetPrimaryPolicy: u32 = 0x0000012E;
pub const FieldUpgradeStart: u32 = 0x0000012F;
pub const ClockRateAdjust: u32 = 0x00000130;
pub const CreatePrimary: u32 = 0x00000131;
pub const NV_GlobalWriteLock: u32 = 0x00000132;
pub const GetCommandAuditDigest: u32 = 0x00000133;
pub const NV_Increment: u32 = 0x00000134;
pub const NV_SetBits: u32 = 0x00000135;
pub const NV_Extend: u32 = 0x00000136;
pub const NV_Write: u32 = 0x00000137;
pub const NV_WriteLock: u32 = 0x00000138;
pub const DictionaryAttackLockReset: u32 = 0x00000139;
pub const DictionaryAttackParameters: u32 = 0x0000013A;
pub const NV_ChangeAuth: u32 = 0x0000013B;
pub const PCR_Event: u32 = 0x0000013C;
pub const PCR_Reset: u32 = 0x0000013D;
pub const SequenceComplete: u32 = 0x0000013E;
pub const SetAlgorithmSet: u32 = 0x0000013F;
pub const SetCommandCodeAuditStatus: u32 = 0x00000140;
pub const FieldUpgradeData: u32 = 0x00000141;
pub const IncrementalSelfTest: u32 = 0x00000142;
pub const SelfTest: u32 = 0x00000143;
pub const Startup: u32 = 0x00000144;
pub const Shutdown: u32 = 0x00000145;
pub const StirRandom: u32 = 0x00000146;
pub const ActivateCredential: u32 = 0x00000147;
pub const Certify: u32 = 0x00000148;
pub const PolicyNV: u32 = 0x00000149;
pub const CertifyCreation: u32 = 0x0000014A;
pub const Duplicate: u32 = 0x0000014B;
pub const GetTime: u32 = 0x0000014C;
pub const GetSessionAuditDigest: u32 = 0x0000014D;
pub const NV_Read: u32 = 0x0000014E;
pub const NV_ReadLock: u32 = 0x0000014F;
pub const ObjectChangeAuth: u32 = 0x00000150;
pub const PolicySecret: u32 = 0x00000151;
pub const Rewrap: u32 = 0x00000152;
pub const Create: u32 = 0x00000153;
pub const ECDH_ZGen: u32 = 0x00000154;
pub const HMAC: u32 = 0x00000155;
pub const Import: u32 = 0x00000156;
pub const Load: u32 = 0x00000157;
pub const Quote: u32 = 0x00000158;
pub const RSA_Decrypt: u32 = 0x00000159;
pub const HMAC_Start: u32 = 0x0000015B;
pub const SequenceUpdate: u32 = 0x0000015C;
pub const Sign: u32 = 0x0000015D;
pub const Unseal: u32 = 0x0000015E;
pub const PolicySigned: u32 = 0x00000160;
pub const ContextLoad: u32 = 0x00000161;
pub const ContextSave: u32 = 0x00000162;
pub const ECDH_KeyGen: u32 = 0x00000163;
pub const EncryptDecrypt: u32 = 0x00000164;
pub const FlushContext: u32 = 0x00000165;
pub const LoadExternal: u32 = 0x00000167;
pub const MakeCredential: u32 = 0x00000168;
pub const NV_ReadPublic: u32 = 0x00000169;
pub const PolicyAuthorize: u32 = 0x0000016A;
pub const PolicyAuthValue: u32 = 0x0000016B;
pub const PolicyCommandCode: u32 = 0x0000016C;
pub const PolicyCounterTimer: u32 = 0x0000016D;
pub const PolicyCpHash: u32 = 0x0000016E;
pub const PolicyLocality: u32 = 0x0000016F;
pub const PolicyNameHash: u32 = 0x00000170;
pub const PolicyOR: u32 = 0x00000171;
pub const PolicyTicket: u32 = 0x00000172;
pub const ReadPublic: u32 = 0x00000173;
pub const RSA_Encrypt: u32 = 0x00000174;
pub const StartAuthSession: u32 = 0x00000176;
pub const VerifySignature: u32 = 0x00000177;
pub const ECC_Parameters: u32 = 0x00000178;
pub const FirmwareRead: u32 = 0x00000179;
pub const GetCapability: u32 = 0x0000017A;
pub const GetRandom: u32 = 0x0000017B;
pub const GetTestResult: u32 = 0x0000017C;
pub const Hash: u32 = 0x0000017D;
pub const PCR_Read: u32 = 0x0000017E;
pub const PolicyPCR: u32 = 0x0000017F;
pub const PolicyRestart: u32 = 0x00000180;
pub const ReadClock: u32 = 0x00000181;
pub const PCR_Extend: u32 = 0x00000182;
pub const PCR_SetAuthValue: u32 = 0x00000183;
pub const NV_Certify: u32 = 0x00000184;
pub const EventSequenceComplete: u32 = 0x00000185;
pub const HashSequenceStart: u32 = 0x00000186;
pub const PolicyPhysicalPresence: u32 = 0x00000187;
pub const PolicyDuplicationSelect: u32 = 0x00000188;
pub const PolicyGetDigest: u32 = 0x00000189;
pub const TestParms: u32 = 0x0000018A;
pub const Commit: u32 = 0x0000018B;
pub const PolicyPassword: u32 = 0x0000018C;
pub const ZGen_2Phase: u32 = 0x0000018D;
pub const EC_Ephemeral: u32 = 0x0000018E;
pub const PolicyNvWritten: u32 = 0x0000018F;
pub const PolicyTemplate: u32 = 0x00000190;
pub const CreateLoaded: u32 = 0x00000191;
pub const PolicyAuthorizeNV: u32 = 0x00000192;
pub const EncryptDecrypt2: u32 = 0x00000193;
pub const AC_GetCapability: u32 = 0x00000194;
pub const AC_Send: u32 = 0x00000195;
pub const Policy_AC_SendSelect: u32 = 0x00000196;
pub const CertifyX509: u32 = 0x00000197;
pub const ACT_SetTimeout: u32 = 0x00000198;
pub const ECC_Encrypt: u32 = 0x00000199;
pub const ECC_Decrypt: u32 = 0x0000019A;
pub const PolicyCapability: u32 = 0x0000019B;
pub const PolicyParameters: u32 = 0x0000019C;
pub const NV_DefineSpace2: u32 = 0x0000019D;
pub const NV_ReadPublic2: u32 = 0x0000019E;
pub const SetCapability: u32 = 0x0000019F;
pub const ReadOnlyControl: u32 = 0x000001A0;
pub const PolicyTransportSPDM: u32 = 0x000001A1;
pub const VerifySequenceComplete: u32 = 0x000001A3;
pub const SignSequenceComplete: u32 = 0x000001A4;
pub const VerifyDigestSignature: u32 = 0x000001A5;
pub const SignDigest: u32 = 0x000001A6;
pub const Encapsulate: u32 = 0x000001A7;
pub const Decapsulate: u32 = 0x000001A8;
pub const VerifySequenceStart: u32 = 0x000001A9;
pub const SignSequenceStart: u32 = 0x000001AA;
pub const Vendor_TCG_Test: u32 = 0x20000000;
/// TPM2_MAC is the later name of the same code.
pub const MAC: u32 = 0x00000155;
pub const MAC_Start: u32 = 0x0000015B;

} // verus!
