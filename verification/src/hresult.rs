use vstd::prelude::*;

verus! {

/// Success HRESULT.
pub const S_OK: i32 = 0;

/// Generic failure (`0x80004005`).
pub const E_FAIL: i32 = -2147467259i32;

/// Pending operation (`0x8000000A`).
pub const E_PENDING: i32 = -2147483638i32;

/// The HRESULT that wraps a Win32 error code: `0` maps to `S_OK`, every other
/// code keeps its low 16 bits under the `0x8007` facility prefix.
pub open spec fn spec_hresult_from_win32(error: u32) -> int {
    if error == 0 {
        0
    } else {
        (0x8007_0000int + (error % 0x10000) as int) - 0x1_0000_0000int
    }
}

/// Wraps a Win32 error code into an HRESULT.
pub fn hresult_from_win32(error: u32) -> (hr: i32)
    ensures
        hr == spec_hresult_from_win32(error),
        error != 0 ==> hr < 0,
{
    if error == 0 {
        S_OK
    } else {
        let low: u32 = error & 0xFFFF;
        assert(low == error % 0x10000) by (bit_vector)
            requires low == error & 0xFFFF;
        (low as i32) + (-2147024896i32)
    }
}

} // verus!
