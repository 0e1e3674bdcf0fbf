use vstd::prelude::*;
use vstd::string::StringSliceAdditionalSpecFns;
use crate::hresult::{hresult_from_win32, spec_hresult_from_win32, E_FAIL, S_OK};
use crate::led::{fixed_ascii, led_wf, process_spec, spec_fixed_ascii, Led15093Config, Led15093Device, LedView};
use crate::uart::{
    bind_handle, device_io_control, handle_bound, handle_has_port, ioctl_spec, port_of, push_readable,
    push_readable_port, restore_written, set_baud_rate, take_written, unbind_handle, UartPort, UartRegistry,
    ERROR_INVALID_FUNCTION,
};
use crate::uart_irp::{done_with, open_port, open_port_spec, uart_handle_irp, uart_irp_post, IrpOp, IrpOutcome, UartIrp};

verus! {

broadcast use vstd::std_specs::hash::group_hash_axioms;

pub const ERROR_ACCESS_DENIED: u32 = 5;

/// Baud rate of a board configured for the high rate.
pub const HIGH_BAUD_RATE: u32 = 460_800;

/// Baud rate of a board at the normal rate.
pub const NORMAL_BAUD_RATE: u32 = 115_200;

/// Settings of the LED board section of the configuration.
pub struct Led15093SectionConfig {
    /// Port of the first board; 0 picks the cabinet's default.
    pub port0: u32,
    /// Port of the second board; 0 picks the cabinet's default.
    pub port1: u32,
    pub board_number: String,
    pub chip_number: String,
    pub boot_chip_number: String,
    pub fw_ver: u8,
    pub fw_sum: u16,
    pub high_baudrate: bool,
}

impl Led15093Config {
    /// The board identity from the configuration section, with each text cut
    /// or padded with spaces to its field.
    pub fn from_section(config: &Led15093SectionConfig) -> (c: Self)
        ensures
            c.board_number@ == spec_fixed_ascii(vstd::utf8::encode_utf8(config.board_number@), 8),
            c.chip_number@ == spec_fixed_ascii(vstd::utf8::encode_utf8(config.chip_number@), 5),
            c.boot_chip_number@ == spec_fixed_ascii(vstd::utf8::encode_utf8(config.boot_chip_number@), 5),
            c.fw_ver == config.fw_ver,
            c.fw_sum == config.fw_sum,
            c.high_baudrate == config.high_baudrate,
    {
        Led15093Config {
            board_number: fixed_ascii::<8>(config.board_number.as_str()),
            chip_number: fixed_ascii::<5>(config.chip_number.as_str()),
            boot_chip_number: fixed_ascii::<5>(config.boot_chip_number.as_str()),
            fw_ver: config.fw_ver,
            fw_sum: config.fw_sum,
            high_baudrate: config.high_baudrate,
        }
    }
}

/// The serial ports of the two boards: the configured ones, with 0 standing
/// for COM20/COM21 on an SP cabinet and COM2/COM3 otherwise.
pub open spec fn led_ports_spec(is_sp: bool, port0: u32, port1: u32) -> (u32, u32) {
    let d0: u32 = if is_sp { 20 } else { 2 };
    let d1: u32 = if is_sp { 21 } else { 3 };
    (if port0 == 0 { d0 } else { port0 }, if port1 == 0 { d1 } else { port1 })
}

/// The serial ports of the two boards (see `led_ports_spec`).
pub fn led_ports_for(is_sp: bool, port0: u32, port1: u32) -> (ports: [u32; 2])
    ensures
        (ports@[0], ports@[1]) == led_ports_spec(is_sp, port0, port1),
{
    let d0: u32 = if is_sp { 20 } else { 2 };
    let d1: u32 = if is_sp { 21 } else { 3 };
    [if port0 == 0 { d0 } else { port0 }, if port1 == 0 { d1 } else { port1 }]
}

/// The two emulated LED boards, their ports, the handles they are open on
/// (0 when closed) and the cached start status of their output backends.
pub struct LedHost {
    pub ports: [u32; 2],
    pub board0: Led15093Device,
    pub board1: Led15093Device,
    pub fds: [usize; 2],
    pub start_status: [Option<i32>; 2],
}

/// Both boards hold whole LED buffers.
pub open spec fn host_wf(h: LedHost) -> bool {
    led_wf(h.board0@) && led_wf(h.board1@)
}

/// The board with index `i`.
pub open spec fn board_view(h: LedHost, i: int) -> LedView {
    if i == 0 { h.board0@ } else { h.board1@ }
}

/// Which board a handle is open on: the first whose stored handle equals a
/// non-zero `fd`.
pub open spec fn fd_index_spec(h: LedHost, fd: usize) -> Option<usize> {
    if fd != 0 && h.fds@[0] == fd {
        Some(0usize)
    } else if fd != 0 && h.fds@[1] == fd {
        Some(1usize)
    } else {
        None
    }
}

/// Which board a port belongs to: the first whose port equals `port`.
pub open spec fn port_index_spec(h: LedHost, port: u32) -> Option<usize> {
    if h.ports@[0] == port {
        Some(0usize)
    } else if h.ports@[1] == port {
        Some(1usize)
    } else {
        None
    }
}

/// What an `Open` request of a board's port turns into: refused while the board
/// is open, the backend's failure while it failed, a backend start when it was
/// never started, and otherwise the opening of the null device.
pub open spec fn open_step_ok(h: LedHost, irp: UartIrp, out: IrpOutcome) -> bool {
    match open_port_spec(irp) {
        None => out is Next,
        Some(p) => match port_index_spec(h, p) {
            None => out is Next,
            Some(i) => if h.fds@[i as int] != 0 {
                done_with(out, spec_hresult_from_win32(ERROR_ACCESS_DENIED) as i32, 0, Seq::empty())
            } else {
                match h.start_status@[i as int] {
                    None => out matches IrpOutcome::StartBackend(j) && j == i,
                    Some(s) => if s < 0 {
                        done_with(out, s, 0, Seq::empty())
                    } else {
                        out matches IrpOutcome::OpenNul(j) && j == i
                    },
                }
            },
        },
    }
}

/// The same host with board `i` replaced by `v`.
pub open spec fn boards_after(h0: LedHost, h1: LedHost, i: int, v: LedView) -> bool {
    &&& h1.ports@ == h0.ports@
    &&& h1.fds@ == h0.fds@
    &&& h1.start_status@ == h0.start_status@
    &&& (if i == 0 { h1.board0@ == v && h1.board1@ == h0.board1@ } else { h1.board1@ == v && h1.board0@ == h0.board0@ })
}

/// What a write on board `i`'s handle does: the bytes join the port's write
/// queue, the board runs every complete frame in it, the unconsumed bytes stay
/// queued, and the board's responses join the read queue. The write fails with
/// `E_FAIL` when a frame is malformed.
pub open spec fn write_led_ok(h0: LedHost, h1: LedHost, r0: UartRegistry, r1: UartRegistry, irp: UartIrp, i: int, out: IrpOutcome) -> bool {
    let q = port_of(r0, irp.handle);
    let k = r0.handles@[irp.handle];
    let w = if irp.has_buffer && irp.nbytes != 0 { q.written@ + irp.write_data@ } else { q.written@ };
    let (v, rest, res) = process_spec(board_view(h0, i), w);
    if !handle_bound(r0, irp.handle) {
        out is NextThenFail && h1 == h0 && r1 == r0
    } else if !handle_has_port(r0, irp.handle) {
        done_with(out, E_FAIL, irp.nbytes, Seq::empty()) && r1.ports@ == r0.ports@ && r1.handles@ == r0.handles@
            && h1 == h0
    } else {
        &&& done_with(out, if res is Ok { S_OK } else { E_FAIL }, irp.nbytes, Seq::empty())
        &&& boards_after(h0, h1, i, LedView { tx: Seq::empty(), ..v })
        &&& r1.handles@ == r0.handles@
        &&& r1.ports@ == r0.ports@.insert(k, UartPort { written: r1.ports@[k].written, readable: r1.ports@[k].readable, ..q })
        &&& r1.ports@[k].written@ == rest
        &&& r1.ports@[k].readable@ == q.readable@ + v.tx
    }
}

/// What the LED boards do with a file request on the hook chain.
pub open spec fn led_irp_ok(h0: LedHost, h1: LedHost, r0: UartRegistry, r1: UartRegistry, irp: UartIrp, out: IrpOutcome) -> bool {
    if irp.op == IrpOp::Open {
        h1 == h0 && r1 == r0 && open_step_ok(h0, irp, out)
    } else {
        match fd_index_spec(h0, irp.handle) {
            None => h1 == h0 && r1 == r0 && out is Next,
            Some(i) => if irp.op == IrpOp::Close {
                &&& h1.fds@ == h0.fds@.update(i as int, 0usize)
                &&& h1.ports == h0.ports && h1.start_status == h0.start_status
                &&& h1.board0@ == h0.board0@ && h1.board1@ == h0.board1@
                &&& r1.handles@ == r0.handles@.remove(irp.handle)
                &&& r1.ports@ == r0.ports@
                &&& out is Next
            } else if irp.op == IrpOp::Read {
                h1 == h0 && uart_irp_post(r0, r1, irp, out)
            } else if irp.op == IrpOp::Write {
                write_led_ok(h0, h1, r0, r1, irp, i as int, out)
            } else if irp.op == IrpOp::Ioctl {
                let r = ioctl_spec(r0, irp.handle, irp.ioctl, irp.ioctl_in@, irp.ioctl_out_capacity);
                &&& h1 == h0
                &&& r1.handles@ == r0.handles@
                &&& r1.ports@ == r.0
                &&& done_with(out, r.1, r.2.len() as u32, r.2)
            } else if irp.op == IrpOp::Fsync {
                h1 == h0 && r1 == r0 && done_with(out, S_OK, 0, Seq::empty())
            } else {
                h1 == h0 && r1 == r0 && done_with(
                    out,
                    spec_hresult_from_win32(ERROR_INVALID_FUNCTION) as i32,
                    0,
                    Seq::empty(),
                )
            },
        }
    }
}

impl LedHost {
    /// Sets up both boards for the configuration: their ports, the same
    /// identity, node address 2 on each line and host address 1.
    pub fn new(is_sp: bool, section: &Led15093SectionConfig) -> (h: Self)
        ensures
            (h.ports@[0], h.ports@[1]) == led_ports_spec(is_sp, section.port0, section.port1),
            h.board0@.board_index == 0 && h.board1@.board_index == 1,
            h.board0@.board_addr == 2 && h.board1@.board_addr == 2,
            h.board0@.host_addr == 1 && h.board1@.host_addr == 1,
            h.board0@.config == h.board1@.config,
            h.board0@.config.high_baudrate == section.high_baudrate,
            h.fds@ == seq![0usize, 0usize],
            h.start_status@ == seq![None::<i32>, None::<i32>],
            host_wf(h),
    {
        let ports = led_ports_for(is_sp, section.port0, section.port1);
        let config = Led15093Config::from_section(section);
        let h = LedHost {
            ports,
            board0: Led15093Device::new(0, 2, 1, config),
            board1: Led15093Device::new(1, 2, 1, config),
            fds: [0, 0],
            start_status: [None, None],
        };
        assert(h.fds@ =~= seq![0usize, 0usize]);
        assert(h.start_status@ =~= seq![None::<i32>, None::<i32>]);
        h
    }

    /// The board that handle `fd` is open on.
    pub fn fd_board_index(&self, fd: usize) -> (i: Option<usize>)
        ensures
            i == fd_index_spec(*self, fd),
    {
        if fd != 0 && self.fds[0] == fd {
            Some(0)
        } else if fd != 0 && self.fds[1] == fd {
            Some(1)
        } else {
            None
        }
    }

    /// The board that port `port` belongs to.
    pub fn port_board_index(&self, port: u32) -> (i: Option<usize>)
        ensures
            i == port_index_spec(*self, port),
    {
        if self.ports[0] == port {
            Some(0)
        } else if self.ports[1] == port {
            Some(1)
        } else {
            None
        }
    }

    /// The serial port of board `index`.
    pub fn led_port(&self, index: usize) -> (p: u32)
        requires
            index < 2,
        ensures
            p == self.ports@[index as int],
    {
        self.ports[index]
    }

    /// Remembers how the output backend of board `index` started.
    pub fn record_backend_start(&mut self, index: usize, status: i32)
        requires
            index < 2,
        ensures
            final(self).start_status@ == old(self).start_status@.update(index as int, Some(status)),
            final(self).ports == old(self).ports,
            final(self).fds == old(self).fds,
            final(self).board0@ == old(self).board0@,
            final(self).board1@ == old(self).board1@,
    {
        self.start_status[index] = Some(status);
    }

    /// The first step of opening a board's port (see `open_step_ok`).
    pub fn open_step(&self, irp: &UartIrp) -> (out: IrpOutcome)
        ensures
            open_step_ok(*self, *irp, out),
    {
        let port = match open_port(irp) {
            Some(p) => p,
            None => {
                return IrpOutcome::Next;
            },
        };
        let index = match self.port_board_index(port) {
            Some(i) => i,
            None => {
                return IrpOutcome::Next;
            },
        };
        if self.fds[index] != 0 {
            return IrpOutcome::Done { hr: hresult_from_win32(ERROR_ACCESS_DENIED), out_nbytes: 0, data: Vec::new() };
        }
        match self.start_status[index] {
            None => IrpOutcome::StartBackend(index),
            Some(s) => if s < 0 {
                IrpOutcome::Done { hr: s, out_nbytes: 0, data: Vec::new() }
            } else {
                IrpOutcome::OpenNul(index)
            },
        }
    }

    /// Finishes opening board `index`'s port once the null device was opened
    /// with `result` on `handle`: on success the handle is bound to the board's
    /// port at the board's baud rate and remembered. Returns `result`.
    pub fn open_completed(&mut self, reg: &mut UartRegistry, index: usize, handle: usize, result: i32) -> (hr: i32)
        requires
            index < 2,
        ensures
            hr == result,
            result < 0 ==> *final(self) == *old(self) && *final(reg) == *old(reg),
            result >= 0 ==> ({
                let port = old(self).ports@[index as int];
                let baud = if board_view(*old(self), index as int).config.high_baudrate {
                    HIGH_BAUD_RATE
                } else {
                    NORMAL_BAUD_RATE
                };
                &&& final(reg).handles@ == old(reg).handles@.insert(handle, port)
                &&& final(reg).ports@.contains_key(port)
                &&& final(reg).ports@[port].baud_rate == baud
                &&& final(self).fds@ == old(self).fds@.update(index as int, handle)
                &&& final(self).ports == old(self).ports
                &&& final(self).start_status == old(self).start_status
                &&& final(self).board0@ == old(self).board0@
                &&& final(self).board1@ == old(self).board1@
            }),
    {
        if result >= 0 {
            let port = self.ports[index];
            bind_handle(reg, handle, port);
            let high = if index == 0 { self.board0.config.high_baudrate } else { self.board1.config.high_baudrate };
            let baud = if high { HIGH_BAUD_RATE } else { NORMAL_BAUD_RATE };
            let _ = set_baud_rate(reg, handle, baud);
            self.fds[index] = handle;
        }
        result
    }

    /// Handles a write to board `index`'s handle (see `write_led_ok`).
    #[verifier::rlimit(40)]
    pub fn write_led(&mut self, reg: &mut UartRegistry, irp: &UartIrp, index: usize) -> (out: IrpOutcome)
        requires
            index < 2,
            irp.op == IrpOp::Write,
            host_wf(*old(self)),
        ensures
            write_led_ok(*old(self), *final(self), *old(reg), *final(reg), *irp, index as int, out),
            host_wf(*final(self)),
    {
        let ghost r0 = *reg;
        if !crate::uart::is_uart_handle(reg, irp.handle) {
            return IrpOutcome::NextThenFail;
        }
        let u = uart_handle_irp(reg, irp);
        let ghost r1 = *reg;
        let hr = match u {
            IrpOutcome::Done { hr, .. } => hr,
            _ => E_FAIL,
        };
        let handle = irp.handle;
        let ghost k = r0.handles@[handle];
        let ghost q = port_of(r0, handle);
        let mut written = match take_written(reg, handle) {
            Some(w) => w,
            None => {
                return IrpOutcome::Done { hr: E_FAIL, out_nbytes: irp.nbytes, data: Vec::new() };
            },
        };
        let ghost r2 = *reg;
        proof {
            assert(r1.ports@.dom() =~= r0.ports@.dom());
            assert(r1.ports@[k] == (UartPort { written: r1.ports@[k].written, ..q }));
            assert(r2.ports@[k] == (UartPort { written: r2.ports@[k].written, ..q }));
        }
        let res = if index == 0 {
            self.board0.process(&mut written)
        } else {
            self.board1.process(&mut written)
        };
        let response = if index == 0 {
            self.board0.take_response()
        } else {
            self.board1.take_response()
        };
        let restored = restore_written(reg, handle, written);
        let ghost r3 = *reg;
        proof {
            assert(r3.ports@[k].written@ =~= written@);
            assert(r3.ports@[k] == (UartPort { written: r3.ports@[k].written, ..q }));
        }
        if response.len() > 0 {
            let queued = push_readable(reg, handle, response.as_slice());
        }
        proof {
            if response@.len() == 0 {
                assert(q.readable@ + response@ =~= q.readable@);
            }
            assert(reg.ports@[k] == (UartPort { written: reg.ports@[k].written, readable: reg.ports@[k].readable, ..q }));
            assert forall|j: u32| j != k implies #[trigger] reg.ports@.index(j) == r0.ports@.index(j) by {
                assert(r1.ports@.index(j) == r0.ports@.index(j));
            }
            assert(reg.ports@.dom() =~= r0.ports@.dom());
            assert(reg.ports@ =~= r0.ports@.insert(
                k,
                UartPort { written: reg.ports@[k].written, readable: reg.ports@[k].readable, ..q },
            ));
        }
        let out_hr = match res {
            Ok(()) => hr,
            Err(_) => E_FAIL,
        };
        IrpOutcome::Done { hr: out_hr, out_nbytes: irp.nbytes, data: Vec::new() }
    }

    /// Serves a file request for the LED boards: opening one of their ports,
    /// and closing, reading, writing, controlling and flushing a handle open on
    /// one of them. Everything else goes to the next handler.
    pub fn led_irp_handler(&mut self, reg: &mut UartRegistry, irp: &UartIrp) -> (out: IrpOutcome)
        requires
            host_wf(*old(self)),
        ensures
            led_irp_ok(*old(self), *final(self), *old(reg), *final(reg), *irp, out),
            host_wf(*final(self)),
    {
        if irp.op == IrpOp::Open {
            return self.open_step(irp);
        }
        let index = match self.fd_board_index(irp.handle) {
            Some(i) => i,
            None => {
                return IrpOutcome::Next;
            },
        };
        match irp.op {
            IrpOp::Close => {
                self.fds[index] = 0;
                unbind_handle(reg, irp.handle);
                IrpOutcome::Next
            },
            IrpOp::Read => uart_handle_irp(reg, irp),
            IrpOp::Write => self.write_led(reg, irp, index),
            IrpOp::Ioctl => {
                let r = device_io_control(
                    reg,
                    irp.handle,
                    irp.ioctl,
                    irp.ioctl_in.as_slice(),
                    irp.ioctl_out_capacity,
                );
                let n = r.output.len() as u32;
                IrpOutcome::Done { hr: r.hr, out_nbytes: n, data: r.output }
            },
            IrpOp::Fsync => IrpOutcome::Done { hr: S_OK, out_nbytes: 0, data: Vec::new() },
            _ => IrpOutcome::Done { hr: hresult_from_win32(ERROR_INVALID_FUNCTION), out_nbytes: 0, data: Vec::new() },
        }
    }
}

} // verus!
