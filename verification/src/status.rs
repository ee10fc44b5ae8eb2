//! Status codes of the operating system.

use vstd::prelude::*;
use windows_core::HRESULT;

verus! {

/// An error of the operating system, held as its HRESULT.
#[derive(Clone, Copy, Debug, PartialEq, Eq)]
pub struct OsError {
    /// The HRESULT; a failure has the sign bit set.
    pub code: i32,
}

/// The 32 bits of the HRESULT that stands for a Win32 status.
///
/// Zero stays zero. A status with the top bit set is taken to be an HRESULT
/// already and is kept. Any other keeps its low sixteen bits and gets the
/// failure bit and the Win32 facility, which is 7.
pub open spec fn hresult_bits(status: u32) -> u32 {
    if status == 0 || status >= 0x8000_0000 {
        status
    } else {
        (status & 0xFFFF) | 0x8007_0000
    }
}

/// Thirty-two bits read as a signed number in two's complement.
pub open spec fn signed(bits: u32) -> int {
    if bits >= 0x8000_0000 {
        bits - 0x1_0000_0000
    } else {
        bits as int
    }
}

/// What a Win32 status means: zero is success, anything else is the error
/// with the HRESULT that stands for the status.
pub open spec fn status_result(status: u32) -> Result<(), OsError> {
    if status == 0 {
        Ok(())
    } else {
        Err(OsError { code: signed(hresult_bits(status)) as i32 })
    }
}

/// Calls `windows_core::HRESULT::from_win32` and hands out the number in the
/// HRESULT it returns.
///
/// Not proved: that the number is `hresult_bits` of the status, read as a
/// signed number.
#[verifier::external_body]
pub(crate) fn hresult_from_win32(status: u32) -> (code: i32)
    ensures
        code == signed(hresult_bits(status)),
{
    HRESULT::from_win32(status).0
}

/// The HRESULT of a nonzero status is a failure: it is negative, and it is
/// the code of the error that the status is read as.
pub proof fn lemma_nonzero_status_fails(status: u32)
    requires
        status != 0,
    ensures
        -0x8000_0000 <= signed(hresult_bits(status)) < 0,
        status_result(status) matches Err(error) && error.code == signed(hresult_bits(status)),
{
    assert(((status & 0xFFFF) | 0x8007_0000u32) >= 0x8000_0000u32) by (bit_vector);
}

/// Reads a Win32 status: zero is success, anything else an error.
pub fn read_status(status: u32) -> (outcome: Result<(), OsError>)
    ensures
        outcome == status_result(status),
{
    if status == 0 {
        Ok(())
    } else {
        Err(OsError { code: hresult_from_win32(status) })
    }
}

} // verus!
