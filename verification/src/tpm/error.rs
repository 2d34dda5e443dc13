//! Response codes.
//!
//! A format one code has bit 7 set and leaves room for the parameter, handle
//! or session the error is about. The number goes in bits 8 and up, bit 6 says
//! that it counts parameters, and bit 11 that it counts sessions.

use vstd::prelude::*;

verus! {

/// A TPM response code.
#[derive(Debug, Clone, Copy, PartialEq, Eq, Structural)]
pub struct TpmRc(pub u32);

/// The result of an operation that can fail with a response code.
pub type TpmResult<T> = Result<T, TpmRc>;

/// True for a format one code that names nothing yet.
pub open spec fn unnumbered(code: u32) -> bool {
    code & 0x080 == 0x080 && code & 0xF40 == 0
}

/// The code with parameter number `n`.
#[verifier::opaque]
pub open spec fn at_parameter_number(code: u32, n: int) -> u32 {
    if unnumbered(code) && 1 <= n <= 15 {
        code | 0x040 | ((n as u32) << 8)
    } else {
        code
    }
}

/// The code with handle number `n`.
#[verifier::opaque]
pub open spec fn at_handle_number(code: u32, n: int) -> u32 {
    if unnumbered(code) && 1 <= n <= 7 {
        code | ((n as u32) << 8)
    } else {
        code
    }
}

/// The code with session number `n`.
#[verifier::opaque]
pub open spec fn at_session_number(code: u32, n: int) -> u32 {
    if unnumbered(code) && 1 <= n <= 7 {
        code | 0x800 | ((n as u32) << 8)
    } else {
        code
    }
}

impl TpmRc {
    /// The code as it stands in a response.
    pub fn value(self) -> (v: u32)
        ensures
            v == self.0,
    {
        self.0
    }

    /// The code this one becomes when parameter `n` is at fault.
    pub open spec fn for_parameter(self, n: int) -> TpmRc {
        TpmRc(at_parameter_number(self.0, n))
    }

    /// The code this one becomes when handle `n` is at fault.
    pub open spec fn for_handle(self, n: int) -> TpmRc {
        TpmRc(at_handle_number(self.0, n))
    }

    /// The code this one becomes when session `n` is at fault.
    pub open spec fn for_session(self, n: int) -> TpmRc {
        TpmRc(at_session_number(self.0, n))
    }

    /// Say which parameter is at fault, counting from one.
    ///
    /// Only a format one code that names nothing yet takes the number. Any
    /// other code is already complete.
    pub fn with_parameter(self, n: usize) -> (r: TpmRc)
        ensures
            r == self.for_parameter(n as int),
    {
        proof {
            reveal(at_parameter_number);
        }
        if self.0 & 0x080 == 0x080 && self.0 & 0xF40 == 0 && 1 <= n && n <= 15 {
            TpmRc(self.0 | 0x040 | ((n as u32) << 8))
        } else {
            self
        }
    }

    /// The code this one becomes when it is parameter `n` that is at fault,
    /// whatever it named before.
    pub open spec fn moved_to_parameter(self, n: int) -> TpmRc {
        TpmRc(self.0 & 0x0BF).for_parameter(n)
    }

    /// Say that it is parameter `n` that is at fault, whatever the code named
    /// before.
    pub fn at_parameter(self, n: usize) -> (r: TpmRc)
        ensures
            r == self.moved_to_parameter(n as int),
    {
        TpmRc(self.0 & 0x0BF).with_parameter(n)
    }

    /// Say which handle is at fault, counting from one.
    pub fn with_handle(self, n: usize) -> (r: TpmRc)
        ensures
            r == self.for_handle(n as int),
    {
        proof {
            reveal(at_handle_number);
        }
        if self.0 & 0x080 == 0x080 && self.0 & 0xF40 == 0 && 1 <= n && n <= 7 {
            TpmRc(self.0 | ((n as u32) << 8))
        } else {
            self
        }
    }

    /// Say which session is at fault, counting from one.
    pub fn with_session(self, n: usize) -> (r: TpmRc)
        ensures
            r == self.for_session(n as int),
    {
        proof {
            reveal(at_session_number);
        }
        if self.0 & 0x080 == 0x080 && self.0 & 0xF40 == 0 && 1 <= n && n <= 7 {
            TpmRc(self.0 | 0x800 | ((n as u32) << 8))
        } else {
            self
        }
    }
}

/// Naming a parameter, a handle or a session keeps the error a caller sees
/// under the number.
pub proof fn law_a_number_keeps_the_error(code: u32, n: int)
    requires
        unnumbered(code),
    ensures
        at_parameter_number(code, n) & 0x03F == code & 0x03F,
        at_handle_number(code, n) & 0x03F == code & 0x03F,
        at_session_number(code, n) & 0x03F == code & 0x03F,
{
    reveal(at_parameter_number);
    reveal(at_handle_number);
    reveal(at_session_number);
    let m = n as u32;
    assert((code | 0x040 | (m << 8)) & 0x03F == code & 0x03F) by (bit_vector);
    assert((code | (m << 8)) & 0x03F == code & 0x03F) by (bit_vector);
    assert((code | 0x800 | (m << 8)) & 0x03F == code & 0x03F) by (bit_vector);
}

/// A code that names something is never renumbered.
pub proof fn law_the_first_number_stays(code: u32, n: int, m: int)
    requires
        unnumbered(code),
        1 <= n <= 7,
    ensures
        at_parameter_number(at_parameter_number(code, n), m) == at_parameter_number(code, n),
        at_handle_number(at_handle_number(code, n), m) == at_handle_number(code, n),
        at_session_number(at_session_number(code, n), m) == at_session_number(code, n),
{
    reveal(at_parameter_number);
    reveal(at_handle_number);
    reveal(at_session_number);
    let k = n as u32;
    assert((code | 0x040 | (k << 8)) & 0xF40 != 0) by (bit_vector);
    assert(1 <= k <= 7 ==> (code | (k << 8)) & 0xF40 != 0) by (bit_vector);
    assert((code | 0x800 | (k << 8)) & 0xF40 != 0) by (bit_vector);
}

/// A result with the error it carries numbered as a parameter error.
pub open spec fn parameter_result<T>(r: TpmResult<T>, n: int) -> TpmResult<T> {
    match r {
        Ok(v) => Ok(v),
        Err(e) => Err(e.for_parameter(n)),
    }
}

} // verus!
