use vstd::prelude::*;
use crate::com_name::{com_port_spec, narrow_name, parse_com_a, parse_com_w, truncated_prefix, MAX_NAME_UNITS};
use crate::frame::extend_bytes;
use crate::hresult::{hresult_from_win32, spec_hresult_from_win32, E_PENDING, S_OK};
use crate::uart::{
    device_io_control, handle_bound, handle_has_port, ioctl_spec, is_uart_handle, port_of, port_registered,
    unbind_handle, with_port_spec, UartPort, UartRegistry, ERROR_INVALID_FUNCTION,
};

verus! {

broadcast use vstd::std_specs::hash::group_hash_axioms;

/// The kind of a file request travelling down the hook chain.
#[derive(Clone, Copy, PartialEq, Eq, Debug, Structural)]
pub enum IrpOp {
    Open,
    Close,
    Read,
    Write,
    Ioctl,
    Fsync,
    Seek,
}

/// A file request as the serial layer sees it, with its buffers copied out.
pub struct UartIrp {
    pub op: IrpOp,
    /// The handle the request is made on (unused for `Open`).
    pub handle: usize,
    /// The narrow file name of an `Open`, when one was given.
    pub open_name_a: Option<Vec<u8>>,
    /// The wide file name of an `Open`, when one was given.
    pub open_name_w: Option<Vec<u16>>,
    /// Bytes asked for (`Read`) or handed over (`Write`).
    pub nbytes: u32,
    /// Whether the caller passed a data buffer.
    pub has_buffer: bool,
    /// The bytes of a `Write`.
    pub write_data: Vec<u8>,
    pub ioctl: u32,
    /// The input buffer of an `Ioctl` (empty when there is none).
    pub ioctl_in: Vec<u8>,
    /// The size of the output buffer of an `Ioctl` (0 when there is none).
    pub ioctl_out_capacity: u32,
}

/// What an emulated device does with a request.
pub enum IrpOutcome {
    /// Not an emulated port: the next handler takes the request.
    Next,
    /// An emulated port is being opened: a handle to the null device is to be
    /// opened and bound to this port number with `bind_handle`.
    OpenPort(u32),
    /// The output backend of this LED board has to be started before its port
    /// can be opened; its status goes back through `record_backend_start`.
    StartBackend(usize),
    /// This LED board's port is being opened: the request is to be passed on
    /// for the null device with shared overlapped access, and its result handed
    /// to `open_completed`.
    OpenNul(usize),
    /// The next handler takes the request; if it succeeds, the request still
    /// fails with `E_FAIL`.
    NextThenFail,
    /// Completed here: the HRESULT, the byte count reported back and the bytes
    /// to copy into the caller's buffer.
    Done { hr: i32, out_nbytes: u32, data: Vec<u8> },
}

/// The port named by an `Open`: the narrow name first, then the wide one.
pub open spec fn open_port_spec(irp: UartIrp) -> Option<u32> {
    let a = match irp.open_name_a {
        Some(n) => com_port_spec(truncated_prefix(n@, MAX_NAME_UNITS as nat)),
        None => None,
    };
    if a is Some {
        a
    } else {
        match irp.open_name_w {
            Some(n) => com_port_spec(truncated_prefix(narrow_name(n@), MAX_NAME_UNITS as nat)),
            None => None,
        }
    }
}

/// Whether `out` completed the request with `hr`, `n` and `data`.
pub open spec fn done_with(out: IrpOutcome, hr: i32, n: u32, data: Seq<u8>) -> bool {
    out matches IrpOutcome::Done { hr: h, out_nbytes: m, data: d } && h == hr && m == n && d@ == data
}

/// How many queued bytes a read of at most `max` bytes takes.
pub open spec fn read_count(reg: UartRegistry, handle: usize, max: u32) -> nat {
    if !handle_has_port(reg, handle) {
        0
    } else if max < port_of(reg, handle).readable@.len() {
        max as nat
    } else {
        port_of(reg, handle).readable@.len()
    }
}

/// Moves up to `max` bytes from the read queue of the port behind `handle`.
pub fn uart_read(reg: &mut UartRegistry, handle: usize, max: u32) -> (out: Vec<u8>)
    ensures
        final(reg).handles@ == old(reg).handles@,
        out@ == (if handle_has_port(*old(reg), handle) {
            port_of(*old(reg), handle).readable@.take(read_count(*old(reg), handle, max) as int)
        } else {
            Seq::<u8>::empty()
        }),
        !handle_has_port(*old(reg), handle) ==> final(reg).ports@ == old(reg).ports@,
        handle_has_port(*old(reg), handle) ==> ({
            let k = old(reg).handles@[handle];
            let q = port_of(*old(reg), handle);
            &&& final(reg).ports@.dom() == old(reg).ports@.dom()
            &&& final(reg).ports@[k].readable@ == q.readable@.skip(read_count(*old(reg), handle, max) as int)
            &&& final(reg).ports@[k] == (UartPort { readable: final(reg).ports@[k].readable, ..q })
            &&& forall|j: u32| j != k ==> #[trigger] final(reg).ports@.index(j) == old(reg).ports@.index(j)
        }),
{
    let port_no = match reg.handles.get(&handle) {
        Some(p) => *p,
        None => {
            return Vec::new();
        },
    };
    match reg.ports.remove(&port_no) {
        None => {
            assert(reg.ports@ =~= old(reg).ports@);
            Vec::new()
        },
        Some(mut port) => {
            let len = port.readable.len();
            let n: usize = if (max as usize) < len { max as usize } else { len };
            let mut taken = port.readable.split_off(n);
            std::mem::swap(&mut taken, &mut port.readable);
            reg.ports.insert(port_no, port);
            assert(reg.ports@.dom() =~= old(reg).ports@.dom());
            taken
        },
    }
}

/// Appends what the host wrote to the port behind `handle`.
pub fn uart_append_written(reg: &mut UartRegistry, handle: usize, data: &[u8]) -> (ok: bool)
    ensures
        ok == handle_has_port(*old(reg), handle),
        final(reg).handles@ == old(reg).handles@,
        !ok ==> final(reg).ports@ == old(reg).ports@,
        ok ==> ({
            let k = old(reg).handles@[handle];
            let q = port_of(*old(reg), handle);
            &&& final(reg).ports@.dom() == old(reg).ports@.dom()
            &&& final(reg).ports@[k].written@ == q.written@ + data@
            &&& final(reg).ports@[k] == (UartPort { written: final(reg).ports@[k].written, ..q })
            &&& forall|j: u32| j != k ==> #[trigger] final(reg).ports@.index(j) == old(reg).ports@.index(j)
        }),
{
    let port_no = match reg.handles.get(&handle) {
        Some(p) => *p,
        None => {
            return false;
        },
    };
    match reg.ports.remove(&port_no) {
        None => {
            assert(reg.ports@ =~= old(reg).ports@);
            false
        },
        Some(mut port) => {
            extend_bytes(&mut port.written, data);
            reg.ports.insert(port_no, port);
            assert(reg.ports@.dom() =~= old(reg).ports@.dom());
            true
        },
    }
}

fn done(hr: i32, out_nbytes: u32, data: Vec<u8>) -> (out: IrpOutcome)
    ensures
        done_with(out, hr, out_nbytes, data@),
{
    IrpOutcome::Done { hr, out_nbytes, data }
}

/// The port that an `Open` names, the narrow name taking precedence.
pub fn open_port(irp: &UartIrp) -> (port: Option<u32>)
    ensures
        port == open_port_spec(*irp),
{
    let a = match &irp.open_name_a {
        Some(n) => parse_com_a(n.as_slice()),
        None => None,
    };
    if a.is_some() {
        return a;
    }
    match &irp.open_name_w {
        Some(n) => parse_com_w(n.as_slice()),
        None => None,
    }
}

/// What the serial layer does with a request: the registry before and after,
/// and the outcome.
pub open spec fn uart_irp_post(r0: UartRegistry, r1: UartRegistry, irp: UartIrp, out: IrpOutcome) -> bool {
    let bound = handle_bound(r0, irp.handle);
    let has_port = handle_has_port(r0, irp.handle);
    let k = r0.handles@[irp.handle];
    let q = port_of(r0, irp.handle);
    if irp.op == IrpOp::Open {
        &&& r1.handles@ == r0.handles@
        &&& r1.ports@ == r0.ports@
        &&& match open_port_spec(irp) {
            Some(p) => if r0.ports@.contains_key(p) {
                out matches IrpOutcome::OpenPort(x) && x == p
            } else {
                out is Next
            },
            None => out is Next,
        }
    } else if irp.op == IrpOp::Close {
        &&& r1.ports@ == r0.ports@
        &&& r1.handles@ == r0.handles@.remove(irp.handle)
        &&& out is Next
    } else if irp.op == IrpOp::Seek {
        &&& r1.ports@ == r0.ports@
        &&& r1.handles@ == r0.handles@
        &&& done_with(out, spec_hresult_from_win32(ERROR_INVALID_FUNCTION) as i32, 0, Seq::empty())
    } else if !bound {
        &&& r1.handles@ == r0.handles@
        &&& r1.ports@ == r0.ports@
        &&& out is Next
    } else if irp.op == IrpOp::Fsync {
        &&& r1.handles@ == r0.handles@
        &&& r1.ports@ == r0.ports@
        &&& done_with(out, S_OK, 0, Seq::empty())
    } else if irp.op == IrpOp::Read {
        &&& r1.handles@ == r0.handles@
        &&& if !irp.has_buffer || irp.nbytes == 0 {
            r1.ports@ == r0.ports@ && done_with(out, S_OK, 0, Seq::empty())
        } else {
            let n = read_count(r0, irp.handle, irp.nbytes);
            &&& done_with(
                out,
                if n == 0 { E_PENDING } else { S_OK },
                n as u32,
                if has_port { q.readable@.take(n as int) } else { Seq::empty() },
            )
            &&& !has_port ==> r1.ports@ == r0.ports@
            &&& has_port ==> r1.ports@ == r0.ports@.insert(k, UartPort { readable: r1.ports@[k].readable, ..q })
                && r1.ports@[k].readable@ == q.readable@.skip(n as int)
        }
    } else if irp.op == IrpOp::Write {
        &&& r1.handles@ == r0.handles@
        &&& done_with(out, S_OK, irp.nbytes, Seq::empty())
        &&& if irp.has_buffer && irp.nbytes != 0 && has_port {
            r1.ports@ == r0.ports@.insert(k, UartPort { written: r1.ports@[k].written, ..q })
                && r1.ports@[k].written@ == q.written@ + irp.write_data@
        } else {
            r1.ports@ == r0.ports@
        }
    } else {
        let r = ioctl_spec(r0, irp.handle, irp.ioctl, irp.ioctl_in@, irp.ioctl_out_capacity);
        &&& r1.handles@ == r0.handles@
        &&& r1.ports@ == r.0
        &&& done_with(out, r.1, r.2.len() as u32, r.2)
    }
}

/// Serves a file request on an emulated serial port.
///
/// `Open` of a registered COM port asks for a null-device handle to bind;
/// `Close` forgets the handle and lets the chain close it; `Read` moves queued
/// device output into the caller's buffer and answers `E_PENDING` when there is
/// none; `Write` queues the bytes for the device; `Ioctl` answers the serial
/// control request; `Fsync` succeeds; `Seek` is refused on every handle.
/// Requests on other handles go to the next handler.
pub fn uart_handle_irp(reg: &mut UartRegistry, irp: &UartIrp) -> (out: IrpOutcome)
    ensures
        uart_irp_post(*old(reg), *final(reg), *irp, out),
{
    match irp.op {
        IrpOp::Open => {
            match open_port(irp) {
                Some(p) => {
                    if port_registered(reg, p) {
                        IrpOutcome::OpenPort(p)
                    } else {
                        IrpOutcome::Next
                    }
                },
                None => IrpOutcome::Next,
            }
        },
        IrpOp::Close => {
            if is_uart_handle(reg, irp.handle) {
                unbind_handle(reg, irp.handle);
            } else {
                assert(old(reg).handles@.remove(irp.handle) =~= old(reg).handles@);
            }
            IrpOutcome::Next
        },
        IrpOp::Seek => done(hresult_from_win32(ERROR_INVALID_FUNCTION), 0, Vec::new()),
        _ => {
            if !is_uart_handle(reg, irp.handle) {
                return IrpOutcome::Next;
            }
            match irp.op {
                IrpOp::Read => {
                    if !irp.has_buffer || irp.nbytes == 0 {
                        return done(S_OK, 0, Vec::new());
                    }
                    let data = uart_read(reg, irp.handle, irp.nbytes);
                    let n = data.len() as u32;
                    proof {
                        if handle_has_port(*old(reg), irp.handle) {
                            assert(reg.ports@ =~= old(reg).ports@.insert(
                                old(reg).handles@[irp.handle],
                                UartPort { readable: reg.ports@[old(reg).handles@[irp.handle]].readable, ..port_of(*old(reg), irp.handle) },
                            ));
                        }
                    }
                    if n == 0 {
                        done(E_PENDING, 0, data)
                    } else {
                        done(S_OK, n, data)
                    }
                },
                IrpOp::Write => {
                    if irp.has_buffer && irp.nbytes != 0 {
                        let ok = uart_append_written(reg, irp.handle, irp.write_data.as_slice());
                        if ok {
                            assert(reg.ports@ =~= old(reg).ports@.insert(
                                old(reg).handles@[irp.handle],
                                UartPort { written: reg.ports@[old(reg).handles@[irp.handle]].written, ..port_of(*old(reg), irp.handle) },
                            ));
                        }
                    }
                    done(S_OK, irp.nbytes, Vec::new())
                },
                IrpOp::Ioctl => {
                    let r = device_io_control(
                        reg,
                        irp.handle,
                        irp.ioctl,
                        irp.ioctl_in.as_slice(),
                        irp.ioctl_out_capacity,
                    );
                    let n = r.output.len() as u32;
                    done(r.hr, n, r.output)
                },
                _ => done(S_OK, 0, Vec::new()),
            }
        },
    }
}

} // verus!
