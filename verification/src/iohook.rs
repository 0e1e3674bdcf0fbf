use vstd::prelude::*;
use crate::hresult::{hresult_from_win32, spec_hresult_from_win32, E_PENDING, S_OK};
use crate::serial::{win32_error_from_hresult, win32_error_spec};
use crate::uart_irp::IrpOp;

verus! {

/// Most handlers the chain holds.
pub const MAX_HANDLERS: usize = 32;
pub const INVALID_HANDLE_VALUE: usize = usize::MAX;
pub const ERROR_INVALID_PARAMETER: u32 = 87;
pub const ERROR_IO_PENDING: u32 = 997;
/// What `SetFilePointer` returns on failure.
pub const INVALID_SET_FILE_POINTER: u32 = 0xFFFF_FFFF;

/// The registered request handlers, by count: each request walks them in
/// order and falls through to the real API after the last.
pub struct HandlerChain {
    count: usize,
}

impl View for HandlerChain {
    type V = nat;

    closed spec fn view(&self) -> nat {
        self.count as nat
    }
}

impl HandlerChain {
    pub closed spec fn wf(&self) -> bool {
        self.count <= MAX_HANDLERS
    }

    /// No handlers.
    pub fn new() -> (c: Self)
        ensures
            c.wf(),
            c@ == 0,
    {
        HandlerChain { count: 0 }
    }

    /// Registers one more handler, at index `old(self)@`; fails when the
    /// chain is full.
    pub fn push_handler(&mut self) -> (ok: bool)
        requires
            old(self).wf(),
        ensures
            final(self).wf(),
            ok == (old(self)@ < MAX_HANDLERS),
            final(self)@ == (if ok { old(self)@ + 1 } else { old(self)@ }),
    {
        if self.count >= MAX_HANDLERS {
            return false;
        }
        self.count = self.count + 1;
        true
    }

    /// The next step of a request whose next handler index is `next`: the
    /// handler to run and the request's new next index, or `None` (the real
    /// API is called) with the index unchanged.
    pub fn next_step(&self, next: usize) -> (r: (Option<usize>, usize))
        requires
            self.wf(),
        ensures
            next < self@ ==> r == (Some(next), (next + 1) as usize),
            next >= self@ ==> r == (None::<usize>, next),
    {
        if next < self.count {
            (Some(next), next + 1)
        } else {
            (None, next)
        }
    }
}

/// A request's next handler index after a step returned `hr`: a failure
/// ends the walk for good.
pub open spec fn next_after_spec(next: usize, hr: i32) -> usize {
    if hr < 0 { usize::MAX } else { next }
}

/// A request's next handler index after a step returned `hr`.
pub fn next_after(next: usize, hr: i32) -> (r: usize)
    ensures
        r == next_after_spec(next, hr),
{
    if hr < 0 { usize::MAX } else { next }
}

/// The real API a request falls through to.
#[derive(Clone, Copy, PartialEq, Eq, Debug, Structural)]
pub enum RealCall {
    CreateFileA,
    CreateFileW,
    CloseHandle,
    ReadFile,
    WriteFile,
    DeviceIoControl,
    FlushFileBuffers,
    SetFilePointerEx,
}

/// The real API for a request: an `Open` with a narrow name goes to
/// `CreateFileA`, any other `Open` to `CreateFileW`.
pub open spec fn fallthrough_call_spec(op: IrpOp, has_name_a: bool) -> RealCall {
    match op {
        IrpOp::Open => if has_name_a { RealCall::CreateFileA } else { RealCall::CreateFileW },
        IrpOp::Close => RealCall::CloseHandle,
        IrpOp::Read => RealCall::ReadFile,
        IrpOp::Write => RealCall::WriteFile,
        IrpOp::Ioctl => RealCall::DeviceIoControl,
        IrpOp::Fsync => RealCall::FlushFileBuffers,
        IrpOp::Seek => RealCall::SetFilePointerEx,
    }
}

/// The real API for a request.
pub fn fallthrough_call(op: IrpOp, has_name_a: bool) -> (c: RealCall)
    ensures
        c == fallthrough_call_spec(op, has_name_a),
{
    match op {
        IrpOp::Open => if has_name_a { RealCall::CreateFileA } else { RealCall::CreateFileW },
        IrpOp::Close => RealCall::CloseHandle,
        IrpOp::Read => RealCall::ReadFile,
        IrpOp::Write => RealCall::WriteFile,
        IrpOp::Ioctl => RealCall::DeviceIoControl,
        IrpOp::Fsync => RealCall::FlushFileBuffers,
        IrpOp::Seek => RealCall::SetFilePointerEx,
    }
}

/// The HRESULT of a real call: success, or the last error it left.
pub fn fallthrough_hr(succeeded: bool, last_error: u32) -> (hr: i32)
    ensures
        hr == (if succeeded { 0 } else { spec_hresult_from_win32(last_error) }),
{
    if succeeded { S_OK } else { hresult_from_win32(last_error) }
}

/// How a hooked API call ends: its return value, the last error to set (if
/// any), the count to store through the caller's count pointer (if any) and
/// the byte count to record in the caller's `OVERLAPPED` (if it gets
/// completed).
#[derive(PartialEq, Eq, Structural)]
pub struct Completion {
    pub ret: i32,
    pub last_error: Option<u32>,
    pub returned: Option<u32>,
    pub overlapped: Option<u32>,
}

/// Completing a successful transfer of `transferred` bytes: the caller's
/// `OVERLAPPED`, if any, is marked done with that count; without a count
/// pointer the call reports `ERROR_IO_PENDING`, otherwise it stores the count
/// and succeeds.
pub open spec fn complete_spec(has_returned: bool, has_ovl: bool, transferred: u32) -> Completion {
    Completion {
        ret: if has_returned { 1 } else { 0 },
        last_error: Some(if has_returned { 0 } else { ERROR_IO_PENDING }),
        returned: if has_returned { Some(transferred) } else { None },
        overlapped: if has_ovl { Some(transferred) } else { None },
    }
}

/// Completes a successful transfer (see `complete_spec`).
pub fn complete_overlapped(has_returned: bool, has_ovl: bool, transferred: u32) -> (c: Completion)
    ensures
        c == complete_spec(has_returned, has_ovl, transferred),
{
    Completion {
        ret: if has_returned { 1 } else { 0 },
        last_error: Some(if has_returned { 0 } else { ERROR_IO_PENDING }),
        returned: if has_returned { Some(transferred) } else { None },
        overlapped: if has_ovl { Some(transferred) } else { None },
    }
}

/// A call rejected for a bad argument.
pub open spec fn invalid_parameter() -> Completion {
    Completion { ret: 0, last_error: Some(ERROR_INVALID_PARAMETER), returned: None, overlapped: None }
}

/// A call failed with `hr`.
pub open spec fn failure(hr: i32, returned: Option<u32>) -> Completion {
    Completion { ret: 0, last_error: Some(win32_error_spec(hr)), returned, overlapped: None }
}

/// Whether a handle can carry a request.
pub open spec fn valid_handle(fd: usize) -> bool {
    fd != 0 && fd != INVALID_HANDLE_VALUE
}

/// Whether `ReadFile`/`WriteFile` arguments are acceptable: a real handle, a
/// data buffer, and a count pointer unless the call is overlapped. A call
/// that is not overlapped has its count cleared first.
pub open spec fn transfer_args_ok(fd: usize, has_buf: bool, has_returned: bool, has_ovl: bool) -> bool {
    valid_handle(fd) && has_buf && (has_ovl || has_returned)
}

/// Whether `ReadFile`/`WriteFile` arguments are acceptable.
pub fn transfer_args_valid(fd: usize, has_buf: bool, has_returned: bool, has_ovl: bool) -> (b: bool)
    ensures
        b == transfer_args_ok(fd, has_buf, has_returned, has_ovl),
{
    fd != 0 && fd != INVALID_HANDLE_VALUE && has_buf && (has_ovl || has_returned)
}

/// How a hooked `ReadFile` ends after the chain returned `hr` having moved
/// `transferred` bytes. A pending read completes its `OVERLAPPED` with no
/// bytes and reports `ERROR_IO_PENDING`, clearing the count.
pub fn read_file_finish(hr: i32, has_returned: bool, has_ovl: bool, transferred: u32) -> (c: Completion)
    ensures
        hr == E_PENDING ==> c == (Completion {
            ret: 0,
            last_error: Some(ERROR_IO_PENDING),
            returned: if has_returned { Some(0u32) } else { None },
            overlapped: if has_ovl { Some(0u32) } else { None },
        }),
        hr != E_PENDING && hr < 0 ==> c == failure(hr, None),
        hr >= 0 ==> c == complete_spec(has_returned, has_ovl, transferred),
{
    if hr == E_PENDING {
        let done = complete_overlapped(false, has_ovl, 0);
        return Completion { ret: done.ret, last_error: done.last_error, returned: if has_returned { Some(0) } else { None }, overlapped: done.overlapped };
    }
    if hr < 0 {
        return Completion { ret: 0, last_error: Some(win32_error_from_hresult(hr)), returned: None, overlapped: None };
    }
    complete_overlapped(has_returned, has_ovl, transferred)
}

/// How a hooked `WriteFile` ends after the chain returned `hr`.
pub fn write_file_finish(hr: i32, has_returned: bool, has_ovl: bool, transferred: u32) -> (c: Completion)
    ensures
        hr < 0 ==> c == failure(hr, None),
        hr >= 0 ==> c == complete_spec(has_returned, has_ovl, transferred),
{
    if hr < 0 {
        return Completion { ret: 0, last_error: Some(win32_error_from_hresult(hr)), returned: None, overlapped: None };
    }
    complete_overlapped(has_returned, has_ovl, transferred)
}

/// Whether `DeviceIoControl` arguments are acceptable: a real handle, and a
/// count pointer unless the call is overlapped.
pub open spec fn ioctl_args_ok(fd: usize, has_returned: bool, has_ovl: bool) -> bool {
    valid_handle(fd) && (has_ovl || has_returned)
}

/// Whether `DeviceIoControl` arguments are acceptable.
pub fn ioctl_args_valid(fd: usize, has_returned: bool, has_ovl: bool) -> (b: bool)
    ensures
        b == ioctl_args_ok(fd, has_returned, has_ovl),
{
    fd != 0 && fd != INVALID_HANDLE_VALUE && (has_ovl || has_returned)
}

/// How a hooked `DeviceIoControl` ends: a failure still reports the bytes
/// moved (a too-small buffer may have received part of the data).
pub fn ioctl_finish(hr: i32, has_returned: bool, has_ovl: bool, transferred: u32) -> (c: Completion)
    ensures
        hr < 0 ==> c == failure(hr, if has_returned { Some(transferred) } else { None }),
        hr >= 0 ==> c == complete_spec(has_returned, has_ovl, transferred),
{
    if hr < 0 {
        return Completion {
            ret: 0,
            last_error: Some(win32_error_from_hresult(hr)),
            returned: if has_returned { Some(transferred) } else { None },
            overlapped: None,
        };
    }
    complete_overlapped(has_returned, has_ovl, transferred)
}

/// How a hooked `CloseHandle` (`clear_error` false) or `FlushFileBuffers`
/// (`clear_error` true) ends after the chain returned `hr`.
pub fn simple_finish(hr: i32, clear_error: bool) -> (c: Completion)
    ensures
        hr < 0 ==> c == failure(hr, None),
        hr >= 0 ==> c == (Completion { ret: 1, last_error: if clear_error { Some(0u32) } else { None }, returned: None, overlapped: None }),
{
    if hr < 0 {
        return Completion { ret: 0, last_error: Some(win32_error_from_hresult(hr)), returned: None, overlapped: None };
    }
    Completion { ret: 1, last_error: if clear_error { Some(0) } else { None }, returned: None, overlapped: None }
}

/// The 64-bit move distance of `SetFilePointer`: the low part alone, or the
/// high part above the low part taken as unsigned.
pub open spec fn seek_distance_spec(distance: i32, high: Option<i32>) -> int {
    match high {
        None => distance as int,
        Some(h) => h * 0x1_0000_0000 + (distance as u32) as int,
    }
}

/// The 64-bit move distance of `SetFilePointer`.
pub fn seek_distance(distance: i32, high: Option<i32>) -> (d: i64)
    ensures
        d == seek_distance_spec(distance, high),
{
    match high {
        None => distance as i64,
        Some(h) => {
            let low = (distance as u32) as i64;
            assert((h as int) * 0x1_0000_0000 >= -0x8000_0000_0000_0000) by (nonlinear_arith)
                requires h >= -0x8000_0000;
            assert((h as int) * 0x1_0000_0000 <= 0x7FFF_FFFF_0000_0000) by (nonlinear_arith)
                requires h <= 0x7FFF_FFFF;
            (h as i64) * 0x1_0000_0000 + low
        },
    }
}

/// The new position as `SetFilePointer` reports it: the low 32 bits as its
/// result and the high 32 bits through the high-part pointer.
pub open spec fn split_position_spec(pos: i64) -> (u32, i32) {
    ((pos as int % 0x1_0000_0000) as u32, (pos as int / 0x1_0000_0000) as i32)
}

/// Splits a position into the low and high halves `SetFilePointer` reports.
pub fn split_position(pos: i64) -> (r: (u32, i32))
    ensures
        r == split_position_spec(pos),
{
    let shifted: u64 = (pos as u64) ^ 0x8000_0000_0000_0000u64;
    let q: u64 = shifted / 0x1_0000_0000;
    let low: u64 = shifted % 0x1_0000_0000;
    let high: i64 = q as i64 - 0x8000_0000;
    proof {
        let p = pos as int;
        assert(shifted == pos + 0x8000_0000_0000_0000) by (bit_vector)
            requires
                shifted == (pos as u64) ^ 0x8000_0000_0000_0000u64;
        assert(q * 0x1_0000_0000 + low == shifted) by (nonlinear_arith)
            requires q == shifted / 0x1_0000_0000, low == shifted % 0x1_0000_0000;
        assert(p == (q - 0x8000_0000) * 0x1_0000_0000 + low) by (nonlinear_arith)
            requires q * 0x1_0000_0000 + low == p + 0x8000_0000_0000_0000;
        assert(low < 0x1_0000_0000);
        vstd::arithmetic::div_mod::lemma_fundamental_div_mod_converse(p, 0x1_0000_0000, high as int, low as int);
    }
    (low as u32, high as i32)
}

/// Splitting a position and composing the halves again gives the position:
/// what `SetFilePointer` reports is what it would be asked to seek to.
pub proof fn lemma_split_then_compose(pos: i64)
    ensures
        seek_distance_spec(split_position_spec(pos).0 as i32, Some(split_position_spec(pos).1)) == pos,
{
    let p = pos as int;
    let low = p % 0x1_0000_0000;
    let high = p / 0x1_0000_0000;
    vstd::arithmetic::div_mod::lemma_fundamental_div_mod(p, 0x1_0000_0000);
    let l = low as u32;
    assert((l as i32) as u32 == l) by (bit_vector);
    assert(high >= -0x8000_0000 && high <= 0x7FFF_FFFF) by (nonlinear_arith)
        requires high == p / 0x1_0000_0000, -0x8000_0000_0000_0000 <= p <= 0x7FFF_FFFF_FFFF_FFFF;
}

} // verus!
