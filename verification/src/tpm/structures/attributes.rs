//! The attribute words of TPM structures.

use vstd::prelude::*;

verus! {

/// TPMA_OBJECT.
#[derive(Debug, Clone, Copy, PartialEq, Eq, Structural)]
pub struct ObjectAttributes(pub u32);

impl ObjectAttributes {
    pub const FIXED_TPM: u32 = 0x00000002;
    pub const ST_CLEAR: u32 = 0x00000004;
    pub const FIXED_PARENT: u32 = 0x00000010;
    pub const SENSITIVE_DATA_ORIGIN: u32 = 0x00000020;
    pub const USER_WITH_AUTH: u32 = 0x00000040;
    pub const ADMIN_WITH_POLICY: u32 = 0x00000080;
    pub const FIRMWARE_LIMITED: u32 = 0x00000100;
    pub const SVN_LIMITED: u32 = 0x00000200;
    pub const NO_DA: u32 = 0x00000400;
    pub const ENCRYPTED_DUPLICATION: u32 = 0x00000800;
    pub const RESTRICTED: u32 = 0x00010000;
    pub const DECRYPT: u32 = 0x00020000;
    pub const SIGN_ENCRYPT: u32 = 0x00040000;
    pub const X509_SIGN: u32 = 0x00080000;

    /// True when every bit of `mask` is set.
    pub open spec fn spec_has(self, mask: u32) -> bool {
        self.0 & mask == mask
    }

    /// True when every bit of `mask` is set.
    #[verifier::when_used_as_spec(spec_has)]
    pub fn has(self, mask: u32) -> (r: bool)
        ensures
            r == self.spec_has(mask),
    {
        self.0 & mask == mask
    }

    /// True when some bit of `mask` is set.
    pub open spec fn spec_any(self, mask: u32) -> bool {
        self.0 & mask != 0
    }

    /// True when some bit of `mask` is set.
    #[verifier::when_used_as_spec(spec_any)]
    pub fn any(self, mask: u32) -> (r: bool)
        ensures
            r == self.spec_any(mask),
    {
        self.0 & mask != 0
    }

    /// The attributes with the bits of `mask` set.
    pub open spec fn spec_with(self, mask: u32) -> ObjectAttributes {
        ObjectAttributes(self.0 | mask)
    }

    /// The attributes with the bits of `mask` set.
    #[verifier::when_used_as_spec(spec_with)]
    pub fn with(self, mask: u32) -> (r: ObjectAttributes)
        ensures
            r == self.spec_with(mask),
    {
        ObjectAttributes(self.0 | mask)
    }

    /// The attributes with the bits of `mask` clear.
    pub open spec fn spec_without(self, mask: u32) -> ObjectAttributes {
        ObjectAttributes(self.0 & !mask)
    }

    /// The attributes with the bits of `mask` clear.
    #[verifier::when_used_as_spec(spec_without)]
    pub fn without(self, mask: u32) -> (r: ObjectAttributes)
        ensures
            r == self.spec_without(mask),
    {
        ObjectAttributes(self.0 & !mask)
    }

    /// The attributes with the bits of `mask` set or clear.
    pub open spec fn put(self, mask: u32, on: bool) -> ObjectAttributes {
        if on {
            self.spec_with(mask)
        } else {
            self.spec_without(mask)
        }
    }

    /// Set or clear the bits of `mask`.
    pub fn set(&mut self, mask: u32, on: bool)
        ensures
            *final(self) == old(self).put(mask, on),
    {
        if on {
            self.0 = self.0 | mask;
        } else {
            self.0 = self.0 & !mask;
        }
    }
}

/// TPMA_SESSION.
#[derive(Debug, Clone, Copy, PartialEq, Eq, Structural)]
pub struct SessionAttributes(pub u8);

impl SessionAttributes {
    pub const CONTINUE_SESSION: u8 = 0x01;
    pub const AUDIT_EXCLUSIVE: u8 = 0x02;
    pub const AUDIT_RESET: u8 = 0x04;
    pub const DECRYPT: u8 = 0x20;
    pub const ENCRYPT: u8 = 0x40;
    pub const AUDIT: u8 = 0x80;

    /// True when every bit of `mask` is set.
    pub open spec fn spec_has(self, mask: u8) -> bool {
        self.0 & mask == mask
    }

    /// True when every bit of `mask` is set.
    #[verifier::when_used_as_spec(spec_has)]
    pub fn has(self, mask: u8) -> (r: bool)
        ensures
            r == self.spec_has(mask),
    {
        self.0 & mask == mask
    }

    /// True when some bit of `mask` is set.
    pub open spec fn spec_any(self, mask: u8) -> bool {
        self.0 & mask != 0
    }

    /// True when some bit of `mask` is set.
    #[verifier::when_used_as_spec(spec_any)]
    pub fn any(self, mask: u8) -> (r: bool)
        ensures
            r == self.spec_any(mask),
    {
        self.0 & mask != 0
    }

    /// The attributes with the bits of `mask` set.
    pub open spec fn spec_with(self, mask: u8) -> SessionAttributes {
        SessionAttributes(self.0 | mask)
    }

    /// The attributes with the bits of `mask` set.
    #[verifier::when_used_as_spec(spec_with)]
    pub fn with(self, mask: u8) -> (r: SessionAttributes)
        ensures
            r == self.spec_with(mask),
    {
        SessionAttributes(self.0 | mask)
    }

    /// The attributes with the bits of `mask` clear.
    pub open spec fn spec_without(self, mask: u8) -> SessionAttributes {
        SessionAttributes(self.0 & !mask)
    }

    /// The attributes with the bits of `mask` clear.
    #[verifier::when_used_as_spec(spec_without)]
    pub fn without(self, mask: u8) -> (r: SessionAttributes)
        ensures
            r == self.spec_without(mask),
    {
        SessionAttributes(self.0 & !mask)
    }

    /// The attributes with the bits of `mask` set or clear.
    pub open spec fn put(self, mask: u8, on: bool) -> SessionAttributes {
        if on {
            self.spec_with(mask)
        } else {
            self.spec_without(mask)
        }
    }

    /// Set or clear the bits of `mask`.
    pub fn set(&mut self, mask: u8, on: bool)
        ensures
            *final(self) == old(self).put(mask, on),
    {
        if on {
            self.0 = self.0 | mask;
        } else {
            self.0 = self.0 & !mask;
        }
    }
}

/// TPMA_NV.
#[derive(Debug, Clone, Copy, PartialEq, Eq, Structural)]
pub struct NvAttributes(pub u32);

impl NvAttributes {
    pub const PPWRITE: u32 = 0x00000001;
    pub const OWNERWRITE: u32 = 0x00000002;
    pub const AUTHWRITE: u32 = 0x00000004;
    pub const POLICYWRITE: u32 = 0x00000008;
    pub const TYPE_MASK: u32 = 0x000000F0;
    pub const POLICY_DELETE: u32 = 0x00000400;
    pub const WRITELOCKED: u32 = 0x00000800;
    pub const WRITEALL: u32 = 0x00001000;
    pub const WRITEDEFINE: u32 = 0x00002000;
    pub const WRITE_STCLEAR: u32 = 0x00004000;
    pub const GLOBALLOCK: u32 = 0x00008000;
    pub const PPREAD: u32 = 0x00010000;
    pub const OWNERREAD: u32 = 0x00020000;
    pub const AUTHREAD: u32 = 0x00040000;
    pub const POLICYREAD: u32 = 0x00080000;
    pub const NO_DA: u32 = 0x02000000;
    pub const ORDERLY: u32 = 0x04000000;
    pub const CLEAR_STCLEAR: u32 = 0x08000000;
    pub const READLOCKED: u32 = 0x10000000;
    pub const WRITTEN: u32 = 0x20000000;
    pub const PLATFORMCREATE: u32 = 0x40000000;
    pub const READ_STCLEAR: u32 = 0x80000000;

    /// True when every bit of `mask` is set.
    pub open spec fn spec_has(self, mask: u32) -> bool {
        self.0 & mask == mask
    }

    /// True when every bit of `mask` is set.
    #[verifier::when_used_as_spec(spec_has)]
    pub fn has(self, mask: u32) -> (r: bool)
        ensures
            r == self.spec_has(mask),
    {
        self.0 & mask == mask
    }

    /// True when some bit of `mask` is set.
    pub open spec fn spec_any(self, mask: u32) -> bool {
        self.0 & mask != 0
    }

    /// True when some bit of `mask` is set.
    #[verifier::when_used_as_spec(spec_any)]
    pub fn any(self, mask: u32) -> (r: bool)
        ensures
            r == self.spec_any(mask),
    {
        self.0 & mask != 0
    }

    /// The attributes with the bits of `mask` set.
    pub open spec fn spec_with(self, mask: u32) -> NvAttributes {
        NvAttributes(self.0 | mask)
    }

    /// The attributes with the bits of `mask` set.
    #[verifier::when_used_as_spec(spec_with)]
    pub fn with(self, mask: u32) -> (r: NvAttributes)
        ensures
            r == self.spec_with(mask),
    {
        NvAttributes(self.0 | mask)
    }

    /// The attributes with the bits of `mask` clear.
    pub open spec fn spec_without(self, mask: u32) -> NvAttributes {
        NvAttributes(self.0 & !mask)
    }

    /// The attributes with the bits of `mask` clear.
    #[verifier::when_used_as_spec(spec_without)]
    pub fn without(self, mask: u32) -> (r: NvAttributes)
        ensures
            r == self.spec_without(mask),
    {
        NvAttributes(self.0 & !mask)
    }

    /// The attributes with the bits of `mask` set or clear.
    pub open spec fn put(self, mask: u32, on: bool) -> NvAttributes {
        if on {
            self.spec_with(mask)
        } else {
            self.spec_without(mask)
        }
    }

    /// Set or clear the bits of `mask`.
    pub fn set(&mut self, mask: u32, on: bool)
        ensures
            *final(self) == old(self).put(mask, on),
    {
        if on {
            self.0 = self.0 | mask;
        } else {
            self.0 = self.0 & !mask;
        }
    }

    /// The TPM_NT of the Index.
    pub open spec fn spec_index_type(self) -> u8 {
        ((self.0 & 0xF0) >> 4) as u8
    }

    /// The TPM_NT of the Index.
    #[verifier::when_used_as_spec(spec_index_type)]
    pub fn index_type(self) -> (r: u8)
        ensures
            r == self.spec_index_type(),
    {
        ((self.0 & 0xF0) >> 4) as u8
    }

    /// The attributes with the TPM_NT given.
    pub fn with_index_type(self, kind: u8) -> (r: NvAttributes)
        ensures
            r.0 == (self.0 & !0xF0u32) | (((kind & 0x0F) as u32) << 4),
            r.spec_index_type() == kind & 0x0F,
    {
        let k: u32 = (kind & 0x0F) as u32;
        let a: u32 = self.0;
        let v: u32 = (a & !0xF0u32) | (k << 4);
        proof {
            let low = kind & 0x0F;
            assert(k == low as u32 && low <= 0x0F ==> (((((a & !0xF0u32) | (k << 4)) & 0xF0) >> 4)
                as u8) == low) by (bit_vector);
            assert(kind & 0x0F <= 0x0F) by (bit_vector);
        }
        NvAttributes(v)
    }
}

/// TPMA_PERMANENT.
#[derive(Debug, Clone, Copy, PartialEq, Eq, Structural)]
pub struct PermanentAttributes(pub u32);

impl PermanentAttributes {
    pub const OWNER_AUTH_SET: u32 = 0x00000001;
    pub const ENDORSEMENT_AUTH_SET: u32 = 0x00000002;
    pub const LOCKOUT_AUTH_SET: u32 = 0x00000004;
    pub const DISABLE_CLEAR: u32 = 0x00000100;
    pub const IN_LOCKOUT: u32 = 0x00000200;
    pub const TPM_GENERATED_EPS: u32 = 0x00000400;

    /// True when every bit of `mask` is set.
    pub open spec fn spec_has(self, mask: u32) -> bool {
        self.0 & mask == mask
    }

    /// True when every bit of `mask` is set.
    #[verifier::when_used_as_spec(spec_has)]
    pub fn has(self, mask: u32) -> (r: bool)
        ensures
            r == self.spec_has(mask),
    {
        self.0 & mask == mask
    }

    /// True when some bit of `mask` is set.
    pub open spec fn spec_any(self, mask: u32) -> bool {
        self.0 & mask != 0
    }

    /// True when some bit of `mask` is set.
    #[verifier::when_used_as_spec(spec_any)]
    pub fn any(self, mask: u32) -> (r: bool)
        ensures
            r == self.spec_any(mask),
    {
        self.0 & mask != 0
    }

    /// The attributes with the bits of `mask` set.
    pub open spec fn spec_with(self, mask: u32) -> PermanentAttributes {
        PermanentAttributes(self.0 | mask)
    }

    /// The attributes with the bits of `mask` set.
    #[verifier::when_used_as_spec(spec_with)]
    pub fn with(self, mask: u32) -> (r: PermanentAttributes)
        ensures
            r == self.spec_with(mask),
    {
        PermanentAttributes(self.0 | mask)
    }

    /// The attributes with the bits of `mask` clear.
    pub open spec fn spec_without(self, mask: u32) -> PermanentAttributes {
        PermanentAttributes(self.0 & !mask)
    }

    /// The attributes with the bits of `mask` clear.
    #[verifier::when_used_as_spec(spec_without)]
    pub fn without(self, mask: u32) -> (r: PermanentAttributes)
        ensures
            r == self.spec_without(mask),
    {
        PermanentAttributes(self.0 & !mask)
    }

    /// The attributes with the bits of `mask` set or clear.
    pub open spec fn put(self, mask: u32, on: bool) -> PermanentAttributes {
        if on {
            self.spec_with(mask)
        } else {
            self.spec_without(mask)
        }
    }

    /// Set or clear the bits of `mask`.
    pub fn set(&mut self, mask: u32, on: bool)
        ensures
            *final(self) == old(self).put(mask, on),
    {
        if on {
            self.0 = self.0 | mask;
        } else {
            self.0 = self.0 & !mask;
        }
    }
}

/// TPMA_STARTUP_CLEAR.
#[derive(Debug, Clone, Copy, PartialEq, Eq, Structural)]
pub struct StartupClearAttributes(pub u32);

impl StartupClearAttributes {
    pub const PH_ENABLE: u32 = 0x00000001;
    pub const SH_ENABLE: u32 = 0x00000002;
    pub const EH_ENABLE: u32 = 0x00000004;
    pub const PH_ENABLE_NV: u32 = 0x00000008;
    pub const READ_ONLY: u32 = 0x00000010;
    pub const ORDERLY: u32 = 0x80000000;

    /// True when every bit of `mask` is set.
    pub open spec fn spec_has(self, mask: u32) -> bool {
        self.0 & mask == mask
    }

    /// True when every bit of `mask` is set.
    #[verifier::when_used_as_spec(spec_has)]
    pub fn has(self, mask: u32) -> (r: bool)
        ensures
            r == self.spec_has(mask),
    {
        self.0 & mask == mask
    }

    /// True when some bit of `mask` is set.
    pub open spec fn spec_any(self, mask: u32) -> bool {
        self.0 & mask != 0
    }

    /// True when some bit of `mask` is set.
    #[verifier::when_used_as_spec(spec_any)]
    pub fn any(self, mask: u32) -> (r: bool)
        ensures
            r == self.spec_any(mask),
    {
        self.0 & mask != 0
    }

    /// The attributes with the bits of `mask` set.
    pub open spec fn spec_with(self, mask: u32) -> StartupClearAttributes {
        StartupClearAttributes(self.0 | mask)
    }

    /// The attributes with the bits of `mask` set.
    #[verifier::when_used_as_spec(spec_with)]
    pub fn with(self, mask: u32) -> (r: StartupClearAttributes)
        ensures
            r == self.spec_with(mask),
    {
        StartupClearAttributes(self.0 | mask)
    }

    /// The attributes with the bits of `mask` clear.
    pub open spec fn spec_without(self, mask: u32) -> StartupClearAttributes {
        StartupClearAttributes(self.0 & !mask)
    }

    /// The attributes with the bits of `mask` clear.
    #[verifier::when_used_as_spec(spec_without)]
    pub fn without(self, mask: u32) -> (r: StartupClearAttributes)
        ensures
            r == self.spec_without(mask),
    {
        StartupClearAttributes(self.0 & !mask)
    }

    /// The attributes with the bits of `mask` set or clear.
    pub open spec fn put(self, mask: u32, on: bool) -> StartupClearAttributes {
        if on {
            self.spec_with(mask)
        } else {
            self.spec_without(mask)
        }
    }

    /// Set or clear the bits of `mask`.
    pub fn set(&mut self, mask: u32, on: bool)
        ensures
            *final(self) == old(self).put(mask, on),
    {
        if on {
            self.0 = self.0 | mask;
        } else {
            self.0 = self.0 & !mask;
        }
    }
}

} // verus!
