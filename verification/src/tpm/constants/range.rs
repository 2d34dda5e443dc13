//! What a handle value names.

use vstd::prelude::*;

use super::{hc, rh};

verus! {

/// True for the handle of a PCR.
pub open spec fn spec_is_pcr(handle: u32) -> bool {
    hc::PCR_FIRST <= handle <= hc::PCR_LAST
}

/// True for the handle of a PCR.
#[verifier::when_used_as_spec(spec_is_pcr)]
pub fn is_pcr(handle: u32) -> (r: bool)
    ensures
        r == spec_is_pcr(handle),
{
    hc::PCR_FIRST <= handle && handle <= hc::PCR_LAST
}

/// True for the handle of an NV Index.
pub open spec fn spec_is_nv(handle: u32) -> bool {
    hc::NV_INDEX_FIRST <= handle <= hc::NV_INDEX_LAST
}

/// True for the handle of an NV Index.
#[verifier::when_used_as_spec(spec_is_nv)]
pub fn is_nv(handle: u32) -> (r: bool)
    ensures
        r == spec_is_nv(handle),
{
    hc::NV_INDEX_FIRST <= handle && handle <= hc::NV_INDEX_LAST
}

/// True for the handle of an HMAC session.
pub open spec fn spec_is_hmac_session(handle: u32) -> bool {
    hc::HMAC_SESSION_FIRST <= handle <= hc::HMAC_SESSION_LAST
}

/// True for the handle of an HMAC session.
#[verifier::when_used_as_spec(spec_is_hmac_session)]
pub fn is_hmac_session(handle: u32) -> (r: bool)
    ensures
        r == spec_is_hmac_session(handle),
{
    hc::HMAC_SESSION_FIRST <= handle && handle <= hc::HMAC_SESSION_LAST
}

/// True for the handle of a policy session.
pub open spec fn spec_is_policy_session(handle: u32) -> bool {
    hc::POLICY_SESSION_FIRST <= handle <= hc::POLICY_SESSION_LAST
}

/// True for the handle of a policy session.
#[verifier::when_used_as_spec(spec_is_policy_session)]
pub fn is_policy_session(handle: u32) -> (r: bool)
    ensures
        r == spec_is_policy_session(handle),
{
    hc::POLICY_SESSION_FIRST <= handle && handle <= hc::POLICY_SESSION_LAST
}

/// True for the handle of a transient object.
pub open spec fn spec_is_transient(handle: u32) -> bool {
    hc::TRANSIENT_FIRST <= handle <= hc::TRANSIENT_LAST
}

/// True for the handle of a transient object.
#[verifier::when_used_as_spec(spec_is_transient)]
pub fn is_transient(handle: u32) -> (r: bool)
    ensures
        r == spec_is_transient(handle),
{
    hc::TRANSIENT_FIRST <= handle && handle <= hc::TRANSIENT_LAST
}

/// True for the handle of a persistent object.
pub open spec fn spec_is_persistent(handle: u32) -> bool {
    hc::PERSISTENT_FIRST <= handle <= hc::PERSISTENT_LAST
}

/// True for the handle of a persistent object.
#[verifier::when_used_as_spec(spec_is_persistent)]
pub fn is_persistent(handle: u32) -> (r: bool)
    ensures
        r == spec_is_persistent(handle),
{
    hc::PERSISTENT_FIRST <= handle && handle <= hc::PERSISTENT_LAST
}

/// True for the handle of a transient or persistent object.
pub open spec fn spec_is_object(handle: u32) -> bool {
    spec_is_transient(handle) || spec_is_persistent(handle)
}

/// True for the handle of a transient or persistent object.
#[verifier::when_used_as_spec(spec_is_object)]
pub fn is_object(handle: u32) -> (r: bool)
    ensures
        r == spec_is_object(handle),
{
    is_transient(handle) || is_persistent(handle)
}

/// True for the handle of an HMAC or policy session.
pub open spec fn spec_is_session(handle: u32) -> bool {
    spec_is_hmac_session(handle) || spec_is_policy_session(handle)
}

/// True for the handle of an HMAC or policy session.
#[verifier::when_used_as_spec(spec_is_session)]
pub fn is_session(handle: u32) -> (r: bool)
    ensures
        r == spec_is_session(handle),
{
    is_hmac_session(handle) || is_policy_session(handle)
}

/// True for the owner, platform and endorsement hierarchies.
pub open spec fn spec_is_base(handle: u32) -> bool {
    handle == rh::OWNER || handle == rh::PLATFORM || handle == rh::ENDORSEMENT
}

/// True for the owner, platform and endorsement hierarchies.
#[verifier::when_used_as_spec(spec_is_base)]
pub fn is_base(handle: u32) -> (r: bool)
    ensures
        r == spec_is_base(handle),
{
    handle == rh::OWNER || handle == rh::PLATFORM || handle == rh::ENDORSEMENT
}

} // verus!
