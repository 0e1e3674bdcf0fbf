use vstd::prelude::*;
use std::collections::HashMap;
use crate::bytes::{from_le32, le32, push_le32, u32_from_le};
use crate::frame::extend_bytes;
use crate::hresult::{hresult_from_win32, spec_hresult_from_win32, E_FAIL, E_PENDING, S_OK};

verus! {

broadcast use vstd::std_specs::hash::group_hash_axioms;

pub const ERROR_INVALID_FUNCTION: u32 = 1;
pub const ERROR_INSUFFICIENT_BUFFER: u32 = 122;

pub const IOCTL_SERIAL_SET_BAUD_RATE: u32 = 0x001B_0004;
pub const IOCTL_SERIAL_SET_QUEUE_SIZE: u32 = 0x001B_0008;
pub const IOCTL_SERIAL_SET_LINE_CONTROL: u32 = 0x001B_000C;
pub const IOCTL_SERIAL_SET_BREAK_ON: u32 = 0x001B_0010;
pub const IOCTL_SERIAL_SET_BREAK_OFF: u32 = 0x001B_0014;
pub const IOCTL_SERIAL_SET_TIMEOUTS: u32 = 0x001B_001C;
pub const IOCTL_SERIAL_GET_TIMEOUTS: u32 = 0x001B_0020;
pub const IOCTL_SERIAL_SET_DTR: u32 = 0x001B_0024;
pub const IOCTL_SERIAL_CLR_DTR: u32 = 0x001B_0028;
pub const IOCTL_SERIAL_RESET_DEVICE: u32 = 0x001B_002C;
pub const IOCTL_SERIAL_SET_RTS: u32 = 0x001B_0030;
pub const IOCTL_SERIAL_CLR_RTS: u32 = 0x001B_0034;
pub const IOCTL_SERIAL_SET_XOFF: u32 = 0x001B_0038;
pub const IOCTL_SERIAL_SET_XON: u32 = 0x001B_003C;
pub const IOCTL_SERIAL_GET_WAIT_MASK: u32 = 0x001B_0040;
pub const IOCTL_SERIAL_SET_WAIT_MASK: u32 = 0x001B_0044;
pub const IOCTL_SERIAL_PURGE: u32 = 0x001B_004C;
pub const IOCTL_SERIAL_GET_BAUD_RATE: u32 = 0x001B_0050;
pub const IOCTL_SERIAL_GET_LINE_CONTROL: u32 = 0x001B_0054;
pub const IOCTL_SERIAL_GET_CHARS: u32 = 0x001B_0058;
pub const IOCTL_SERIAL_SET_CHARS: u32 = 0x001B_005C;
pub const IOCTL_SERIAL_GET_HANDFLOW: u32 = 0x001B_0060;
pub const IOCTL_SERIAL_SET_HANDFLOW: u32 = 0x001B_0064;
pub const IOCTL_SERIAL_GET_MODEMSTATUS: u32 = 0x001B_0068;
pub const IOCTL_SERIAL_GET_COMMSTATUS: u32 = 0x001B_006C;
pub const IOCTL_SERIAL_GET_MODEM_CONTROL: u32 = 0x001B_0094;
pub const IOCTL_SERIAL_SET_MODEM_CONTROL: u32 = 0x001B_0098;

/// Baud rate of a serial line (`SERIAL_BAUD_RATE`).
#[derive(Clone, Copy)]
pub struct SerialBaudRate {
    pub baud_rate: u32,
}

/// Framing of a serial line (`SERIAL_LINE_CONTROL`).
#[derive(Clone, Copy)]
pub struct SerialLineControl {
    pub stop_bits: u8,
    pub parity: u8,
    pub word_length: u8,
}

/// Read and write timeouts (`SERIAL_TIMEOUTS`).
#[derive(Clone, Copy)]
pub struct SerialTimeouts {
    pub read_interval_timeout: u32,
    pub read_total_timeout_multiplier: u32,
    pub read_total_timeout_constant: u32,
    pub write_total_timeout_multiplier: u32,
    pub write_total_timeout_constant: u32,
}

/// Flow control settings (`SERIAL_HANDFLOW`).
#[derive(Clone, Copy)]
pub struct SerialHandflow {
    pub control_handshake: u32,
    pub flow_replace: u32,
    pub xon_limit: i32,
    pub xoff_limit: i32,
}

/// Special characters (`SERIAL_CHARS`).
#[derive(Clone, Copy)]
pub struct SerialChars {
    pub eof_char: u8,
    pub error_char: u8,
    pub break_char: u8,
    pub event_char: u8,
    pub xon_char: u8,
    pub xoff_char: u8,
}

/// Line status (`SERIAL_STATUS`).
#[derive(Clone, Copy)]
pub struct SerialStatus {
    pub errors: u32,
    pub hold_reasons: u32,
    pub amount_in_in_queue: u32,
    pub amount_in_out_queue: u32,
    pub eof_received: u8,
    pub wait_for_immediate: u8,
}

impl Default for SerialTimeouts {
    fn default() -> (t: Self)
        ensures
            t.read_interval_timeout == 0 && t.read_total_timeout_multiplier == 0
                && t.read_total_timeout_constant == 0 && t.write_total_timeout_multiplier == 0
                && t.write_total_timeout_constant == 0,
    {
        SerialTimeouts {
            read_interval_timeout: 0,
            read_total_timeout_multiplier: 0,
            read_total_timeout_constant: 0,
            write_total_timeout_multiplier: 0,
            write_total_timeout_constant: 0,
        }
    }
}

impl Default for SerialHandflow {
    fn default() -> (h: Self)
        ensures
            h.control_handshake == 0 && h.flow_replace == 0 && h.xon_limit == 0 && h.xoff_limit == 0,
    {
        SerialHandflow { control_handshake: 0, flow_replace: 0, xon_limit: 0, xoff_limit: 0 }
    }
}

impl Default for SerialChars {
    fn default() -> (c: Self)
        ensures
            c.eof_char == 0 && c.error_char == 0 && c.break_char == 0 && c.event_char == 0
                && c.xon_char == 0x11 && c.xoff_char == 0x13,
    {
        SerialChars { eof_char: 0, error_char: 0, break_char: 0, event_char: 0, xon_char: 0x11, xoff_char: 0x13 }
    }
}

impl Default for SerialStatus {
    fn default() -> (s: Self)
        ensures
            s.errors == 0 && s.hold_reasons == 0 && s.amount_in_in_queue == 0 && s.amount_in_out_queue == 0
                && s.eof_received == 0 && s.wait_for_immediate == 0,
    {
        SerialStatus {
            errors: 0,
            hold_reasons: 0,
            amount_in_in_queue: 0,
            amount_in_out_queue: 0,
            eof_received: 0,
            wait_for_immediate: 0,
        }
    }
}

/// Settings and queue sizes of one emulated port, as the host may query them.
#[derive(Clone, Copy)]
pub struct UartSnapshot {
    pub baud_rate: u32,
    pub line_control: SerialLineControl,
    pub timeouts: SerialTimeouts,
    pub handflow: SerialHandflow,
    pub chars: SerialChars,
    pub wait_mask: u32,
    pub modem_control: u32,
    pub modem_status: u32,
    pub input_queue: u32,
    pub output_queue: u32,
}

/// One emulated serial port: what the device has for the host to read, what
/// the host wrote and the device has not consumed yet, and the line settings.
/// The emulated devices raise none of the modem status lines (CTS, DSR, RING,
/// RLSD), so a port keeps only the two lines the host drives, DTR and RTS.
pub struct UartPort {
    pub readable: Vec<u8>,
    pub written: Vec<u8>,
    pub baud_rate: u32,
    pub line_control: SerialLineControl,
    pub timeouts: SerialTimeouts,
    pub handflow: SerialHandflow,
    pub chars: SerialChars,
    pub wait_mask: u32,
    pub modem_control: u32,
    pub dtr: bool,
    pub rts: bool,
}

/// A port as it is after `uart_init`: empty queues, 115200 baud, 8 data bits.
pub open spec fn is_fresh_port(p: UartPort) -> bool {
    &&& p.readable@.len() == 0
    &&& p.written@.len() == 0
    &&& p.baud_rate == 115_200
    &&& p.line_control.stop_bits == 0 && p.line_control.parity == 0 && p.line_control.word_length == 8
    &&& p.timeouts.read_interval_timeout == 0 && p.timeouts.read_total_timeout_multiplier == 0
    &&& p.timeouts.read_total_timeout_constant == 0 && p.timeouts.write_total_timeout_multiplier == 0
    &&& p.timeouts.write_total_timeout_constant == 0
    &&& p.handflow.control_handshake == 0 && p.handflow.flow_replace == 0
    &&& p.handflow.xon_limit == 0 && p.handflow.xoff_limit == 0
    &&& p.chars.eof_char == 0 && p.chars.error_char == 0 && p.chars.break_char == 0
    &&& p.chars.event_char == 0 && p.chars.xon_char == 0x11 && p.chars.xoff_char == 0x13
    &&& p.wait_mask == 0 && p.modem_control == 0
    &&& !p.dtr && !p.rts
}

impl Default for UartPort {
    fn default() -> (p: Self)
        ensures
            is_fresh_port(p),
    {
        UartPort {
            readable: Vec::new(),
            written: Vec::new(),
            baud_rate: 115_200,
            line_control: SerialLineControl { stop_bits: 0, parity: 0, word_length: 8 },
            timeouts: SerialTimeouts::default(),
            handflow: SerialHandflow::default(),
            chars: SerialChars::default(),
            wait_mask: 0,
            modem_control: 0,
            dtr: false,
            rts: false,
        }
    }
}

impl UartPort {
    /// Queues a whole message for the host only if the read queue stays within
    /// `capacity` bytes; otherwise queues nothing.
    pub fn push_readable_bounded(&mut self, bytes: &[u8], capacity: usize) -> (ok: bool)
        ensures
            ok == (old(self).readable@.len() + bytes@.len() <= capacity),
            ok ==> final(self).readable@ == old(self).readable@ + bytes@,
            ok ==> *final(self) == (UartPort { readable: final(self).readable, ..*old(self) }),
            !ok ==> *final(self) == *old(self),
    {
        let len = self.readable.len();
        if len > usize::MAX - bytes.len() {
            return false;
        }
        let required = len + bytes.len();
        if required > capacity {
            return false;
        }
        extend_bytes(&mut self.readable, bytes);
        true
    }
}

/// All emulated ports by number, and which open handle refers to which port.
pub struct UartRegistry {
    pub ports: HashMap<u32, UartPort>,
    pub handles: HashMap<usize, u32>,
}

/// Whether `handle` was bound to a port.
pub open spec fn handle_bound(reg: UartRegistry, handle: usize) -> bool {
    reg.handles@.contains_key(handle)
}

/// Whether `handle` refers to a port that exists.
pub open spec fn handle_has_port(reg: UartRegistry, handle: usize) -> bool {
    reg.handles@.contains_key(handle) && reg.ports@.contains_key(reg.handles@[handle])
}

/// The port that `handle` refers to.
pub open spec fn port_of(reg: UartRegistry, handle: usize) -> UartPort {
    reg.ports@[reg.handles@[handle]]
}

/// The registry with the port behind `handle` replaced by `port`, when there is one.
pub open spec fn with_port_spec(reg: UartRegistry, handle: usize, port: UartPort) -> Map<u32, UartPort> {
    if handle_has_port(reg, handle) {
        reg.ports@.insert(reg.handles@[handle], port)
    } else {
        reg.ports@
    }
}

impl UartRegistry {
    /// A registry with no ports and no handles.
    pub fn new() -> (reg: Self)
        ensures
            reg.ports@ == Map::<u32, UartPort>::empty(),
            reg.handles@ == Map::<usize, u32>::empty(),
    {
        UartRegistry { ports: HashMap::new(), handles: HashMap::new() }
    }
}

/// Nothing is set up for the serial layer beyond its registry.
pub fn init_all(reg: &UartRegistry) {
}

/// Creates port `port_no` with default settings unless it exists.
pub fn uart_init(reg: &mut UartRegistry, port_no: u32)
    ensures
        final(reg).handles@ == old(reg).handles@,
        old(reg).ports@.contains_key(port_no) ==> final(reg).ports@ == old(reg).ports@,
        !old(reg).ports@.contains_key(port_no) ==> final(reg).ports@.dom() == old(reg).ports@.dom().insert(port_no)
            && is_fresh_port(final(reg).ports@[port_no])
            && (forall|k: u32| k != port_no ==> #[trigger] final(reg).ports@.index(k) == old(reg).ports@.index(k)),
{
    if !reg.ports.contains_key(&port_no) {
        reg.ports.insert(port_no, UartPort::default());
    }
}

/// Whether `handle` was bound to a port.
pub fn is_uart_handle(reg: &UartRegistry, handle: usize) -> (b: bool)
    ensures
        b == handle_bound(*reg, handle),
{
    reg.handles.contains_key(&handle)
}

/// Binds `handle` to port `port_no`, creating the port if needed.
pub fn bind_handle(reg: &mut UartRegistry, handle: usize, port_no: u32)
    ensures
        final(reg).handles@ == old(reg).handles@.insert(handle, port_no),
        final(reg).ports@.contains_key(port_no),
        old(reg).ports@.contains_key(port_no) ==> final(reg).ports@ == old(reg).ports@,
        !old(reg).ports@.contains_key(port_no) ==> is_fresh_port(final(reg).ports@[port_no]),
        forall|k: u32| k != port_no ==> #[trigger] final(reg).ports@.contains_key(k) == old(reg).ports@.contains_key(k),
        forall|k: u32| k != port_no && old(reg).ports@.contains_key(k) ==> #[trigger] final(reg).ports@.index(k) == old(reg).ports@.index(k),
{
    uart_init(reg, port_no);
    reg.handles.insert(handle, port_no);
}

/// Forgets `handle`; its port stays.
pub fn unbind_handle(reg: &mut UartRegistry, handle: usize)
    ensures
        final(reg).handles@ == old(reg).handles@.remove(handle),
        final(reg).ports@ == old(reg).ports@,
{
    reg.handles.remove(&handle);
}

/// The port number `handle` is bound to.
pub fn port_from_handle(reg: &UartRegistry, handle: usize) -> (p: Option<u32>)
    ensures
        p == (if handle_bound(*reg, handle) { Some(reg.handles@[handle]) } else { None::<u32> }),
{
    match reg.handles.get(&handle) {
        Some(p) => Some(*p),
        None => None,
    }
}

/// Whether port `port_no` exists.
pub fn port_registered(reg: &UartRegistry, port_no: u32) -> (b: bool)
    ensures
        b == reg.ports@.contains_key(port_no),
{
    reg.ports.contains_key(&port_no)
}

/// Takes the port behind `handle` out of the registry.
fn take_port(reg: &mut UartRegistry, handle: usize) -> (res: Option<(u32, UartPort)>)
    ensures
        final(reg).handles@ == old(reg).handles@,
        handle_has_port(*old(reg), handle) ==> res == Some((old(reg).handles@[handle], port_of(*old(reg), handle)))
            && final(reg).ports@ == old(reg).ports@.remove(old(reg).handles@[handle]),
        !handle_has_port(*old(reg), handle) ==> res is None && final(reg).ports@ == old(reg).ports@,
{
    let port_no = match reg.handles.get(&handle) {
        Some(p) => *p,
        None => {
            return None;
        },
    };
    match reg.ports.remove(&port_no) {
        Some(port) => Some((port_no, port)),
        None => None,
    }
}

/// A copy of the settings of the port behind `handle`.
pub fn snapshot(reg: &UartRegistry, handle: usize) -> (snap: Option<UartSnapshot>)
    ensures
        !handle_has_port(*reg, handle) ==> snap is None,
        handle_has_port(*reg, handle) ==> snap == Some(snapshot_spec(port_of(*reg, handle))),
{
    let port_no = match reg.handles.get(&handle) {
        Some(p) => *p,
        None => {
            return None;
        },
    };
    match reg.ports.get(&port_no) {
        Some(port) => Some(port_snapshot(port)),
        None => None,
    }
}

/// What the host reads of a port: its settings and the sizes of its two
/// queues. The modem status (CTS, DSR, RING and RLSD at bits 4 to 7) is zero,
/// no device raising any of those lines.
pub open spec fn snapshot_spec(p: UartPort) -> UartSnapshot {
    UartSnapshot {
        baud_rate: p.baud_rate,
        line_control: p.line_control,
        timeouts: p.timeouts,
        handflow: p.handflow,
        chars: p.chars,
        wait_mask: p.wait_mask,
        modem_control: p.modem_control,
        modem_status: 0,
        input_queue: p.readable@.len() as u32,
        output_queue: p.written@.len() as u32,
    }
}

fn port_snapshot(port: &UartPort) -> (snap: UartSnapshot)
    ensures
        snap == snapshot_spec(*port),
{
    UartSnapshot {
        baud_rate: port.baud_rate,
        line_control: port.line_control,
        timeouts: port.timeouts,
        handflow: port.handflow,
        chars: port.chars,
        wait_mask: port.wait_mask,
        modem_control: port.modem_control,
        modem_status: 0,
        input_queue: port.readable.len() as u32,
        output_queue: port.written.len() as u32,
    }
}


/// Sets the baud rate of the port behind `handle`.
pub fn set_baud_rate(reg: &mut UartRegistry, handle: usize, baud_rate: u32) -> (ok: bool)
    ensures
        ok == handle_has_port(*old(reg), handle),
        final(reg).handles@ == old(reg).handles@,
        final(reg).ports@ == with_port_spec(*old(reg), handle, UartPort { baud_rate: baud_rate, ..port_of(*old(reg), handle) }),
{
    match take_port(reg, handle) {
        None => false,
        Some((port_no, mut port)) => {
            port.baud_rate = baud_rate;
            reg.ports.insert(port_no, port);
            proof {
                assert(reg.ports@ =~= with_port_spec(*old(reg), handle, UartPort { baud_rate: baud_rate, ..port_of(*old(reg), handle) }));
            }
            true
        },
    }
}

/// Sets the framing of the port behind `handle`.
pub fn set_line_control(reg: &mut UartRegistry, handle: usize, line_control: SerialLineControl) -> (ok: bool)
    ensures
        ok == handle_has_port(*old(reg), handle),
        final(reg).handles@ == old(reg).handles@,
        final(reg).ports@ == with_port_spec(*old(reg), handle, UartPort { line_control: line_control, ..port_of(*old(reg), handle) }),
{
    match take_port(reg, handle) {
        None => false,
        Some((port_no, mut port)) => {
            port.line_control = line_control;
            reg.ports.insert(port_no, port);
            proof {
                assert(reg.ports@ =~= with_port_spec(*old(reg), handle, UartPort { line_control: line_control, ..port_of(*old(reg), handle) }));
            }
            true
        },
    }
}

/// Sets the timeouts of the port behind `handle`.
pub fn set_timeouts(reg: &mut UartRegistry, handle: usize, timeouts: SerialTimeouts) -> (ok: bool)
    ensures
        ok == handle_has_port(*old(reg), handle),
        final(reg).handles@ == old(reg).handles@,
        final(reg).ports@ == with_port_spec(*old(reg), handle, UartPort { timeouts: timeouts, ..port_of(*old(reg), handle) }),
{
    match take_port(reg, handle) {
        None => false,
        Some((port_no, mut port)) => {
            port.timeouts = timeouts;
            reg.ports.insert(port_no, port);
            proof {
                assert(reg.ports@ =~= with_port_spec(*old(reg), handle, UartPort { timeouts: timeouts, ..port_of(*old(reg), handle) }));
            }
            true
        },
    }
}

/// Sets the flow control of the port behind `handle`.
pub fn set_handflow(reg: &mut UartRegistry, handle: usize, handflow: SerialHandflow) -> (ok: bool)
    ensures
        ok == handle_has_port(*old(reg), handle),
        final(reg).handles@ == old(reg).handles@,
        final(reg).ports@ == with_port_spec(*old(reg), handle, UartPort { handflow: handflow, ..port_of(*old(reg), handle) }),
{
    match take_port(reg, handle) {
        None => false,
        Some((port_no, mut port)) => {
            port.handflow = handflow;
            reg.ports.insert(port_no, port);
            proof {
                assert(reg.ports@ =~= with_port_spec(*old(reg), handle, UartPort { handflow: handflow, ..port_of(*old(reg), handle) }));
            }
            true
        },
    }
}

/// Sets the special characters of the port behind `handle`.
pub fn set_chars(reg: &mut UartRegistry, handle: usize, chars: SerialChars) -> (ok: bool)
    ensures
        ok == handle_has_port(*old(reg), handle),
        final(reg).handles@ == old(reg).handles@,
        final(reg).ports@ == with_port_spec(*old(reg), handle, UartPort { chars: chars, ..port_of(*old(reg), handle) }),
{
    match take_port(reg, handle) {
        None => false,
        Some((port_no, mut port)) => {
            port.chars = chars;
            reg.ports.insert(port_no, port);
            proof {
                assert(reg.ports@ =~= with_port_spec(*old(reg), handle, UartPort { chars: chars, ..port_of(*old(reg), handle) }));
            }
            true
        },
    }
}

/// Sets the event mask of the port behind `handle`.
pub fn set_wait_mask(reg: &mut UartRegistry, handle: usize, wait_mask: u32) -> (ok: bool)
    ensures
        ok == handle_has_port(*old(reg), handle),
        final(reg).handles@ == old(reg).handles@,
        final(reg).ports@ == with_port_spec(*old(reg), handle, UartPort { wait_mask: wait_mask, ..port_of(*old(reg), handle) }),
{
    match take_port(reg, handle) {
        None => false,
        Some((port_no, mut port)) => {
            port.wait_mask = wait_mask;
            reg.ports.insert(port_no, port);
            proof {
                assert(reg.ports@ =~= with_port_spec(*old(reg), handle, UartPort { wait_mask: wait_mask, ..port_of(*old(reg), handle) }));
            }
            true
        },
    }
}

/// Sets the modem control register of the port behind `handle`.
pub fn set_modem_control(reg: &mut UartRegistry, handle: usize, modem_control: u32) -> (ok: bool)
    ensures
        ok == handle_has_port(*old(reg), handle),
        final(reg).handles@ == old(reg).handles@,
        final(reg).ports@ == with_port_spec(*old(reg), handle, UartPort { modem_control: modem_control, ..port_of(*old(reg), handle) }),
{
    match take_port(reg, handle) {
        None => false,
        Some((port_no, mut port)) => {
            port.modem_control = modem_control;
            reg.ports.insert(port_no, port);
            proof {
                assert(reg.ports@ =~= with_port_spec(*old(reg), handle, UartPort { modem_control: modem_control, ..port_of(*old(reg), handle) }));
            }
            true
        },
    }
}

/// The port after an `EscapeCommFunction` code: 5 and 4 raise and drop RTS,
/// 6 and 7 raise and drop DTR, anything else changes nothing.
pub open spec fn escape_spec(p: UartPort, function: u32) -> UartPort {
    if function == 5 {
        UartPort { rts: true, ..p }
    } else if function == 4 {
        UartPort { rts: false, ..p }
    } else if function == 6 {
        UartPort { dtr: true, ..p }
    } else if function == 7 {
        UartPort { dtr: false, ..p }
    } else {
        p
    }
}

/// Applies a modem line escape function to the port behind `handle`.
pub fn set_escape(reg: &mut UartRegistry, handle: usize, function: u32) -> (ok: bool)
    ensures
        ok == handle_has_port(*old(reg), handle),
        final(reg).handles@ == old(reg).handles@,
        final(reg).ports@ == with_port_spec(*old(reg), handle, escape_spec(port_of(*old(reg), handle), function)),
{
    match take_port(reg, handle) {
        None => false,
        Some((port_no, mut port)) => {
            if function == 5 {
                port.rts = true;
            } else if function == 4 {
                port.rts = false;
            } else if function == 6 {
                port.dtr = true;
            } else if function == 7 {
                port.dtr = false;
            }
            reg.ports.insert(port_no, port);
            proof {
                assert(reg.ports@ =~= with_port_spec(*old(reg), handle, escape_spec(port_of(*old(reg), handle), function)));
            }
            true
        },
    }
}

/// Empties both queues of the port behind `handle`.
pub fn purge(reg: &mut UartRegistry, handle: usize) -> (ok: bool)
    ensures
        ok == handle_has_port(*old(reg), handle),
        final(reg).handles@ == old(reg).handles@,
        !ok ==> final(reg).ports@ == old(reg).ports@,
        ok ==> final(reg).ports@.dom() == old(reg).ports@.dom(),
        ok ==> ({
            let p = final(reg).ports@[old(reg).handles@[handle]];
            let q = port_of(*old(reg), handle);
            p.readable@.len() == 0 && p.written@.len() == 0 && p == (UartPort { readable: p.readable, written: p.written, ..q })
        }),
        ok ==> forall|k: u32| k != old(reg).handles@[handle] ==> #[trigger] final(reg).ports@.index(k) == old(reg).ports@.index(k),
{
    match take_port(reg, handle) {
        None => false,
        Some((port_no, mut port)) => {
            port.readable.clear();
            port.written.clear();
            reg.ports.insert(port_no, port);
            assert(reg.ports@.dom() =~= old(reg).ports@.dom());
            true
        },
    }
}

/// Takes the bytes the host wrote that the device has not consumed yet.
pub fn take_written(reg: &mut UartRegistry, handle: usize) -> (out: Option<Vec<u8>>)
    ensures
        final(reg).handles@ == old(reg).handles@,
        !handle_has_port(*old(reg), handle) ==> out is None && final(reg).ports@ == old(reg).ports@,
        handle_has_port(*old(reg), handle) ==> ({
            let q = port_of(*old(reg), handle);
            &&& out matches Some(v) && v@ == q.written@
            &&& final(reg).ports@.dom() == old(reg).ports@.dom()
            &&& final(reg).ports@[old(reg).handles@[handle]].written@.len() == 0
            &&& final(reg).ports@[old(reg).handles@[handle]].readable@ == q.readable@
            &&& final(reg).ports@[old(reg).handles@[handle]] == (UartPort {
                written: final(reg).ports@[old(reg).handles@[handle]].written,
                ..q
            })
            &&& forall|k: u32| k != old(reg).handles@[handle] ==> #[trigger] final(reg).ports@.index(k) == old(reg).ports@.index(k)
        }),
{
    match take_port(reg, handle) {
        None => None,
        Some((port_no, mut port)) => {
            let mut out: Vec<u8> = Vec::new();
            std::mem::swap(&mut out, &mut port.written);
            reg.ports.insert(port_no, port);
            assert(reg.ports@.dom() =~= old(reg).ports@.dom());
            Some(out)
        },
    }
}

/// Puts unconsumed bytes back in front of whatever the host wrote meanwhile.
pub fn restore_written(reg: &mut UartRegistry, handle: usize, pending: Vec<u8>) -> (ok: bool)
    ensures
        ok == handle_has_port(*old(reg), handle),
        final(reg).handles@ == old(reg).handles@,
        !ok ==> final(reg).ports@ == old(reg).ports@,
        ok ==> ({
            let q = port_of(*old(reg), handle);
            &&& final(reg).ports@.dom() == old(reg).ports@.dom()
            &&& final(reg).ports@[old(reg).handles@[handle]].written@ == pending@ + q.written@
            &&& final(reg).ports@[old(reg).handles@[handle]].readable@ == q.readable@
            &&& final(reg).ports@[old(reg).handles@[handle]] == (UartPort {
                written: final(reg).ports@[old(reg).handles@[handle]].written,
                ..q
            })
            &&& forall|k: u32| k != old(reg).handles@[handle] ==> #[trigger] final(reg).ports@.index(k) == old(reg).ports@.index(k)
        }),
{
    match take_port(reg, handle) {
        None => false,
        Some((port_no, mut port)) => {
            let mut pending = pending;
            pending.append(&mut port.written);
            port.written = pending;
            reg.ports.insert(port_no, port);
            assert(reg.ports@.dom() =~= old(reg).ports@.dom());
            true
        },
    }
}

/// Queues device output for the host on the port behind `handle`.
pub fn push_readable(reg: &mut UartRegistry, handle: usize, bytes: &[u8]) -> (ok: bool)
    ensures
        ok == handle_has_port(*old(reg), handle),
        final(reg).handles@ == old(reg).handles@,
        !ok ==> final(reg).ports@ == old(reg).ports@,
        ok ==> ({
            let q = port_of(*old(reg), handle);
            &&& final(reg).ports@.dom() == old(reg).ports@.dom()
            &&& final(reg).ports@[old(reg).handles@[handle]].readable@ == q.readable@ + bytes@
            &&& final(reg).ports@[old(reg).handles@[handle]].written@ == q.written@
            &&& final(reg).ports@[old(reg).handles@[handle]] == (UartPort {
                readable: final(reg).ports@[old(reg).handles@[handle]].readable,
                ..q
            })
            &&& forall|k: u32| k != old(reg).handles@[handle] ==> #[trigger] final(reg).ports@.index(k) == old(reg).ports@.index(k)
        }),
{
    match take_port(reg, handle) {
        None => false,
        Some((port_no, mut port)) => {
            extend_bytes(&mut port.readable, bytes);
            reg.ports.insert(port_no, port);
            assert(reg.ports@.dom() =~= old(reg).ports@.dom());
            true
        },
    }
}

/// Queues device output for the host on port `port_no`.
pub fn push_readable_port(reg: &mut UartRegistry, port_no: u32, bytes: &[u8]) -> (ok: bool)
    ensures
        ok == old(reg).ports@.contains_key(port_no),
        final(reg).handles@ == old(reg).handles@,
        !ok ==> final(reg).ports@ == old(reg).ports@,
        ok ==> final(reg).ports@.dom() == old(reg).ports@.dom()
            && final(reg).ports@[port_no].readable@ == old(reg).ports@[port_no].readable@ + bytes@
            && final(reg).ports@[port_no].written@ == old(reg).ports@[port_no].written@
            && forall|k: u32| k != port_no ==> #[trigger] final(reg).ports@.index(k) == old(reg).ports@.index(k),
{
    match reg.ports.remove(&port_no) {
        None => false,
        Some(mut port) => {
            extend_bytes(&mut port.readable, bytes);
            reg.ports.insert(port_no, port);
            assert(reg.ports@.dom() =~= old(reg).ports@.dom());
            true
        },
    }
}

/// Queues a whole message on port `port_no` only if its read queue stays
/// within `capacity` bytes.
pub fn push_readable_port_bounded(reg: &mut UartRegistry, port_no: u32, bytes: &[u8], capacity: usize) -> (ok: bool)
    ensures
        ok == (old(reg).ports@.contains_key(port_no) && old(reg).ports@[port_no].readable@.len() + bytes@.len() <= capacity),
        !ok ==> *final(reg) == *old(reg),
        final(reg).handles@ == old(reg).handles@,
        final(reg).ports@.dom() == old(reg).ports@.dom(),
        ok ==> final(reg).ports@[port_no].readable@ == old(reg).ports@[port_no].readable@ + bytes@,
        ok ==> final(reg).ports@[port_no] == (UartPort { readable: final(reg).ports@[port_no].readable, ..old(reg).ports@[port_no] }),
        forall|k: u32| k != port_no ==> #[trigger] final(reg).ports@.index(k) == old(reg).ports@.index(k),
{
    let fits = match reg.ports.get(&port_no) {
        None => false,
        Some(p) => p.readable.len() <= capacity && bytes.len() <= capacity - p.readable.len(),
    };
    if !fits {
        return false;
    }
    match reg.ports.remove(&port_no) {
        None => false,
        Some(mut port) => {
            let ok = port.push_readable_bounded(bytes, capacity);
            reg.ports.insert(port_no, port);
            assert(reg.ports@.dom() =~= old(reg).ports@.dom());
            ok
        },
    }
}


/// `SERIAL_LINE_CONTROL` as laid out in memory.
pub open spec fn line_control_bytes(v: SerialLineControl) -> Seq<u8> {
    seq![v.stop_bits, v.parity, v.word_length]
}

/// `SERIAL_TIMEOUTS` as laid out in memory.
pub open spec fn timeouts_bytes(v: SerialTimeouts) -> Seq<u8> {
    le32(v.read_interval_timeout) + le32(v.read_total_timeout_multiplier) + le32(v.read_total_timeout_constant)
        + le32(v.write_total_timeout_multiplier) + le32(v.write_total_timeout_constant)
}

/// `SERIAL_HANDFLOW` as laid out in memory.
pub open spec fn handflow_bytes(v: SerialHandflow) -> Seq<u8> {
    le32(v.control_handshake) + le32(v.flow_replace) + le32(v.xon_limit as u32) + le32(v.xoff_limit as u32)
}

/// `SERIAL_CHARS` as laid out in memory.
pub open spec fn chars_bytes(v: SerialChars) -> Seq<u8> {
    seq![v.eof_char, v.error_char, v.break_char, v.event_char, v.xon_char, v.xoff_char]
}

/// `SERIAL_STATUS` as laid out in memory, with its two padding bytes zeroed.
pub open spec fn status_bytes(v: SerialStatus) -> Seq<u8> {
    le32(v.errors) + le32(v.hold_reasons) + le32(v.amount_in_in_queue) + le32(v.amount_in_out_queue) + seq![
        v.eof_received,
        v.wait_for_immediate,
        0u8,
        0u8,
    ]
}

pub open spec fn decode_line_control(b: Seq<u8>) -> SerialLineControl {
    SerialLineControl { stop_bits: b[0], parity: b[1], word_length: b[2] }
}

pub open spec fn decode_timeouts(b: Seq<u8>) -> SerialTimeouts {
    SerialTimeouts {
        read_interval_timeout: from_le32(b.subrange(0, 4)),
        read_total_timeout_multiplier: from_le32(b.subrange(4, 8)),
        read_total_timeout_constant: from_le32(b.subrange(8, 12)),
        write_total_timeout_multiplier: from_le32(b.subrange(12, 16)),
        write_total_timeout_constant: from_le32(b.subrange(16, 20)),
    }
}

pub open spec fn decode_handflow(b: Seq<u8>) -> SerialHandflow {
    SerialHandflow {
        control_handshake: from_le32(b.subrange(0, 4)),
        flow_replace: from_le32(b.subrange(4, 8)),
        xon_limit: from_le32(b.subrange(8, 12)) as i32,
        xoff_limit: from_le32(b.subrange(12, 16)) as i32,
    }
}

pub open spec fn decode_chars(b: Seq<u8>) -> SerialChars {
    SerialChars { eof_char: b[0], error_char: b[1], break_char: b[2], event_char: b[3], xon_char: b[4], xoff_char: b[5] }
}

pub fn line_control_from(b: &[u8]) -> (v: SerialLineControl)
    requires
        b@.len() >= 3,
    ensures
        v == decode_line_control(b@),
{
    SerialLineControl { stop_bits: b[0], parity: b[1], word_length: b[2] }
}

pub fn timeouts_from(b: &[u8]) -> (v: SerialTimeouts)
    requires
        b@.len() >= 20,
    ensures
        v == decode_timeouts(b@),
{
    SerialTimeouts {
        read_interval_timeout: u32_from_le(b, 0),
        read_total_timeout_multiplier: u32_from_le(b, 4),
        read_total_timeout_constant: u32_from_le(b, 8),
        write_total_timeout_multiplier: u32_from_le(b, 12),
        write_total_timeout_constant: u32_from_le(b, 16),
    }
}

pub fn handflow_from(b: &[u8]) -> (v: SerialHandflow)
    requires
        b@.len() >= 16,
    ensures
        v == decode_handflow(b@),
{
    SerialHandflow {
        control_handshake: u32_from_le(b, 0),
        flow_replace: u32_from_le(b, 4),
        xon_limit: u32_from_le(b, 8) as i32,
        xoff_limit: u32_from_le(b, 12) as i32,
    }
}

pub fn chars_from(b: &[u8]) -> (v: SerialChars)
    requires
        b@.len() >= 6,
    ensures
        v == decode_chars(b@),
{
    SerialChars { eof_char: b[0], error_char: b[1], break_char: b[2], event_char: b[3], xon_char: b[4], xoff_char: b[5] }
}

pub fn line_control_to_bytes(v: SerialLineControl) -> (out: Vec<u8>)
    ensures
        out@ == line_control_bytes(v),
{
    let mut out: Vec<u8> = Vec::new();
    out.push(v.stop_bits);
    out.push(v.parity);
    out.push(v.word_length);
    assert(out@ =~= line_control_bytes(v));
    out
}

pub fn timeouts_to_bytes(v: SerialTimeouts) -> (out: Vec<u8>)
    ensures
        out@ == timeouts_bytes(v),
{
    let mut out: Vec<u8> = Vec::new();
    push_le32(&mut out, v.read_interval_timeout);
    push_le32(&mut out, v.read_total_timeout_multiplier);
    push_le32(&mut out, v.read_total_timeout_constant);
    push_le32(&mut out, v.write_total_timeout_multiplier);
    push_le32(&mut out, v.write_total_timeout_constant);
    assert(out@ =~= timeouts_bytes(v));
    out
}

pub fn handflow_to_bytes(v: SerialHandflow) -> (out: Vec<u8>)
    ensures
        out@ == handflow_bytes(v),
{
    let mut out: Vec<u8> = Vec::new();
    push_le32(&mut out, v.control_handshake);
    push_le32(&mut out, v.flow_replace);
    push_le32(&mut out, v.xon_limit as u32);
    push_le32(&mut out, v.xoff_limit as u32);
    assert(out@ =~= handflow_bytes(v));
    out
}

pub fn chars_to_bytes(v: SerialChars) -> (out: Vec<u8>)
    ensures
        out@ == chars_bytes(v),
{
    let mut out: Vec<u8> = Vec::new();
    out.push(v.eof_char);
    out.push(v.error_char);
    out.push(v.break_char);
    out.push(v.event_char);
    out.push(v.xon_char);
    out.push(v.xoff_char);
    assert(out@ =~= chars_bytes(v));
    out
}

pub fn status_to_bytes(v: SerialStatus) -> (out: Vec<u8>)
    ensures
        out@ == status_bytes(v),
{
    let mut out: Vec<u8> = Vec::new();
    push_le32(&mut out, v.errors);
    push_le32(&mut out, v.hold_reasons);
    push_le32(&mut out, v.amount_in_in_queue);
    push_le32(&mut out, v.amount_in_out_queue);
    out.push(v.eof_received);
    out.push(v.wait_for_immediate);
    out.push(0);
    out.push(0);
    assert(out@ =~= status_bytes(v));
    out
}

pub fn u32_to_bytes(v: u32) -> (out: Vec<u8>)
    ensures
        out@ == le32(v),
{
    let mut out: Vec<u8> = Vec::new();
    push_le32(&mut out, v);
    assert(out@ =~= le32(v));
    out
}

/// `S_OK` when the request succeeded, `E_FAIL` otherwise.
pub fn bool_hresult(ok: bool) -> (hr: i32)
    ensures
        hr == (if ok { S_OK } else { E_FAIL }),
{
    if ok {
        S_OK
    } else {
        E_FAIL
    }
}

/// The outcome of a serial control request: the HRESULT and the bytes to copy
/// into the caller's output buffer (their count is the count returned).
pub struct IoctlOutcome {
    pub hr: i32,
    pub output: Vec<u8>,
}

/// A value handed back through an output buffer of `capacity` bytes.
pub open spec fn output_spec(bytes: Seq<u8>, capacity: u32) -> (i32, Seq<u8>) {
    if capacity < bytes.len() {
        (spec_hresult_from_win32(ERROR_INSUFFICIENT_BUFFER) as i32, Seq::empty())
    } else {
        (S_OK, bytes)
    }
}

/// A value read back from the port behind `handle`, if there is one.
pub open spec fn query_spec(reg: UartRegistry, handle: usize, bytes: Seq<u8>, capacity: u32) -> (Map<u32, UartPort>, i32, Seq<u8>) {
    if handle_has_port(reg, handle) {
        (reg.ports@, output_spec(bytes, capacity).0, output_spec(bytes, capacity).1)
    } else {
        (reg.ports@, E_FAIL, Seq::empty())
    }
}

/// A setting taken from an input buffer of at least `size` bytes.
pub open spec fn update_spec(reg: UartRegistry, handle: usize, input: Seq<u8>, size: int, port: UartPort) -> (Map<u32, UartPort>, i32, Seq<u8>) {
    if input.len() < size {
        (reg.ports@, spec_hresult_from_win32(ERROR_INSUFFICIENT_BUFFER) as i32, Seq::empty())
    } else if handle_has_port(reg, handle) {
        (with_port_spec(reg, handle, port), S_OK, Seq::empty())
    } else {
        (reg.ports@, E_FAIL, Seq::empty())
    }
}

/// A modem line change through an escape function.
pub open spec fn escape_request_spec(reg: UartRegistry, handle: usize, function: u32) -> (Map<u32, UartPort>, i32, Seq<u8>) {
    (with_port_spec(reg, handle, escape_spec(port_of(reg, handle), function)), if handle_has_port(reg, handle) {
        S_OK
    } else {
        E_FAIL
    }, Seq::empty())
}

/// What a serial control request does: the ports afterwards, the HRESULT and
/// the output bytes.
pub open spec fn ioctl_spec(reg: UartRegistry, handle: usize, code: u32, input: Seq<u8>, capacity: u32) -> (Map<u32, UartPort>, i32, Seq<u8>) {
    let p = port_of(reg, handle);
    let snap = snapshot_spec(p);
    if !handle_bound(reg, handle) {
        (reg.ports@, spec_hresult_from_win32(ERROR_INVALID_FUNCTION) as i32, Seq::empty())
    } else if code == IOCTL_SERIAL_SET_BAUD_RATE {
        update_spec(reg, handle, input, 4, UartPort { baud_rate: from_le32(input.take(4)), ..p })
    } else if code == IOCTL_SERIAL_GET_BAUD_RATE {
        let baud = if handle_has_port(reg, handle) { p.baud_rate } else { 115_200u32 };
        (reg.ports@, output_spec(le32(baud), capacity).0, output_spec(le32(baud), capacity).1)
    } else if code == IOCTL_SERIAL_SET_LINE_CONTROL {
        update_spec(reg, handle, input, 3, UartPort { line_control: decode_line_control(input), ..p })
    } else if code == IOCTL_SERIAL_GET_LINE_CONTROL {
        query_spec(reg, handle, line_control_bytes(snap.line_control), capacity)
    } else if code == IOCTL_SERIAL_SET_TIMEOUTS {
        update_spec(reg, handle, input, 20, UartPort { timeouts: decode_timeouts(input), ..p })
    } else if code == IOCTL_SERIAL_GET_TIMEOUTS {
        query_spec(reg, handle, timeouts_bytes(snap.timeouts), capacity)
    } else if code == IOCTL_SERIAL_SET_HANDFLOW {
        update_spec(reg, handle, input, 16, UartPort { handflow: decode_handflow(input), ..p })
    } else if code == IOCTL_SERIAL_GET_HANDFLOW {
        query_spec(reg, handle, handflow_bytes(snap.handflow), capacity)
    } else if code == IOCTL_SERIAL_GET_CHARS {
        query_spec(reg, handle, chars_bytes(snap.chars), capacity)
    } else if code == IOCTL_SERIAL_SET_CHARS {
        update_spec(reg, handle, input, 6, UartPort { chars: decode_chars(input), ..p })
    } else if code == IOCTL_SERIAL_GET_WAIT_MASK {
        query_spec(reg, handle, le32(snap.wait_mask), capacity)
    } else if code == IOCTL_SERIAL_SET_WAIT_MASK {
        update_spec(reg, handle, input, 4, UartPort { wait_mask: from_le32(input.take(4)), ..p })
    } else if code == IOCTL_SERIAL_GET_MODEM_CONTROL {
        query_spec(reg, handle, le32(snap.modem_control), capacity)
    } else if code == IOCTL_SERIAL_SET_MODEM_CONTROL {
        update_spec(reg, handle, input, 4, UartPort { modem_control: from_le32(input.take(4)), ..p })
    } else if code == IOCTL_SERIAL_GET_MODEMSTATUS {
        query_spec(reg, handle, le32(snap.modem_status), capacity)
    } else if code == IOCTL_SERIAL_GET_COMMSTATUS {
        let status = SerialStatus {
            errors: 0,
            hold_reasons: 0,
            amount_in_in_queue: snap.input_queue,
            amount_in_out_queue: snap.output_queue,
            eof_received: 0,
            wait_for_immediate: 0,
        };
        query_spec(reg, handle, status_bytes(status), capacity)
    } else if code == IOCTL_SERIAL_SET_DTR {
        escape_request_spec(reg, handle, 6)
    } else if code == IOCTL_SERIAL_CLR_DTR {
        escape_request_spec(reg, handle, 7)
    } else if code == IOCTL_SERIAL_SET_RTS {
        escape_request_spec(reg, handle, 5)
    } else if code == IOCTL_SERIAL_CLR_RTS {
        escape_request_spec(reg, handle, 4)
    } else if code == IOCTL_SERIAL_PURGE || code == IOCTL_SERIAL_SET_QUEUE_SIZE || code == IOCTL_SERIAL_SET_BREAK_ON
        || code == IOCTL_SERIAL_SET_BREAK_OFF || code == IOCTL_SERIAL_SET_XOFF || code == IOCTL_SERIAL_SET_XON {
        (reg.ports@, S_OK, Seq::empty())
    } else {
        (reg.ports@, spec_hresult_from_win32(ERROR_INVALID_FUNCTION) as i32, Seq::empty())
    }
}

fn output_result(bytes: Vec<u8>, capacity: u32) -> (out: IoctlOutcome)
    ensures
        (out.hr, out.output@) == output_spec(bytes@, capacity),
{
    if (capacity as usize) < bytes.len() {
        IoctlOutcome { hr: hresult_from_win32(ERROR_INSUFFICIENT_BUFFER), output: Vec::new() }
    } else {
        IoctlOutcome { hr: S_OK, output: bytes }
    }
}

fn insufficient() -> (out: IoctlOutcome)
    ensures
        out.hr == spec_hresult_from_win32(ERROR_INSUFFICIENT_BUFFER) as i32,
        out.output@ == Seq::<u8>::empty(),
{
    IoctlOutcome { hr: hresult_from_win32(ERROR_INSUFFICIENT_BUFFER), output: Vec::new() }
}

fn no_output(hr: i32) -> (out: IoctlOutcome)
    ensures
        out.hr == hr,
        out.output@ == Seq::<u8>::empty(),
{
    IoctlOutcome { hr, output: Vec::new() }
}

/// Answers a serial control request on an emulated port. `input` holds the
/// caller's input buffer (empty when there is none) and `capacity` the size of
/// its output buffer (0 when there is none).
pub fn device_io_control(reg: &mut UartRegistry, handle: usize, code: u32, input: &[u8], capacity: u32) -> (out: IoctlOutcome)
    ensures
        final(reg).handles@ == old(reg).handles@,
        (final(reg).ports@, out.hr, out.output@) == ioctl_spec(*old(reg), handle, code, input@, capacity),
{
    if !is_uart_handle(reg, handle) {
        return no_output(hresult_from_win32(ERROR_INVALID_FUNCTION));
    }
    let snap = snapshot(reg, handle);
    if code == IOCTL_SERIAL_SET_BAUD_RATE {
        if input.len() < 4 {
            return insufficient();
        }
        let v = u32_from_le(input, 0);
        assert(input@.subrange(0, 4) =~= input@.take(4));
        no_output(bool_hresult(set_baud_rate(reg, handle, v)))
    } else if code == IOCTL_SERIAL_GET_BAUD_RATE {
        let baud = match snap {
            Some(s) => s.baud_rate,
            None => 115_200,
        };
        output_result(u32_to_bytes(baud), capacity)
    } else if code == IOCTL_SERIAL_SET_LINE_CONTROL {
        if input.len() < 3 {
            return insufficient();
        }
        no_output(bool_hresult(set_line_control(reg, handle, line_control_from(input))))
    } else if code == IOCTL_SERIAL_GET_LINE_CONTROL {
        match snap {
            Some(s) => output_result(line_control_to_bytes(s.line_control), capacity),
            None => no_output(E_FAIL),
        }
    } else if code == IOCTL_SERIAL_SET_TIMEOUTS {
        if input.len() < 20 {
            return insufficient();
        }
        no_output(bool_hresult(set_timeouts(reg, handle, timeouts_from(input))))
    } else if code == IOCTL_SERIAL_GET_TIMEOUTS {
        match snap {
            Some(s) => output_result(timeouts_to_bytes(s.timeouts), capacity),
            None => no_output(E_FAIL),
        }
    } else if code == IOCTL_SERIAL_SET_HANDFLOW {
        if input.len() < 16 {
            return insufficient();
        }
        no_output(bool_hresult(set_handflow(reg, handle, handflow_from(input))))
    } else if code == IOCTL_SERIAL_GET_HANDFLOW {
        match snap {
            Some(s) => output_result(handflow_to_bytes(s.handflow), capacity),
            None => no_output(E_FAIL),
        }
    } else if code == IOCTL_SERIAL_GET_CHARS {
        match snap {
            Some(s) => output_result(chars_to_bytes(s.chars), capacity),
            None => no_output(E_FAIL),
        }
    } else if code == IOCTL_SERIAL_SET_CHARS {
        if input.len() < 6 {
            return insufficient();
        }
        no_output(bool_hresult(set_chars(reg, handle, chars_from(input))))
    } else if code == IOCTL_SERIAL_GET_WAIT_MASK {
        match snap {
            Some(s) => output_result(u32_to_bytes(s.wait_mask), capacity),
            None => no_output(E_FAIL),
        }
    } else if code == IOCTL_SERIAL_SET_WAIT_MASK {
        if input.len() < 4 {
            return insufficient();
        }
        let v = u32_from_le(input, 0);
        assert(input@.subrange(0, 4) =~= input@.take(4));
        no_output(bool_hresult(set_wait_mask(reg, handle, v)))
    } else if code == IOCTL_SERIAL_GET_MODEM_CONTROL {
        match snap {
            Some(s) => output_result(u32_to_bytes(s.modem_control), capacity),
            None => no_output(E_FAIL),
        }
    } else if code == IOCTL_SERIAL_SET_MODEM_CONTROL {
        if input.len() < 4 {
            return insufficient();
        }
        let v = u32_from_le(input, 0);
        assert(input@.subrange(0, 4) =~= input@.take(4));
        no_output(bool_hresult(set_modem_control(reg, handle, v)))
    } else if code == IOCTL_SERIAL_GET_MODEMSTATUS {
        match snap {
            Some(s) => output_result(u32_to_bytes(s.modem_status), capacity),
            None => no_output(E_FAIL),
        }
    } else if code == IOCTL_SERIAL_GET_COMMSTATUS {
        match snap {
            Some(s) => {
                let status = SerialStatus {
                    errors: 0,
                    hold_reasons: 0,
                    amount_in_in_queue: s.input_queue,
                    amount_in_out_queue: s.output_queue,
                    eof_received: 0,
                    wait_for_immediate: 0,
                };
                output_result(status_to_bytes(status), capacity)
            },
            None => no_output(E_FAIL),
        }
    } else if code == IOCTL_SERIAL_SET_DTR {
        no_output(bool_hresult(set_escape(reg, handle, 6)))
    } else if code == IOCTL_SERIAL_CLR_DTR {
        no_output(bool_hresult(set_escape(reg, handle, 7)))
    } else if code == IOCTL_SERIAL_SET_RTS {
        no_output(bool_hresult(set_escape(reg, handle, 5)))
    } else if code == IOCTL_SERIAL_CLR_RTS {
        no_output(bool_hresult(set_escape(reg, handle, 4)))
    } else if code == IOCTL_SERIAL_PURGE || code == IOCTL_SERIAL_SET_QUEUE_SIZE || code == IOCTL_SERIAL_SET_BREAK_ON
        || code == IOCTL_SERIAL_SET_BREAK_OFF || code == IOCTL_SERIAL_SET_XOFF || code == IOCTL_SERIAL_SET_XON {
        no_output(S_OK)
    } else {
        no_output(hresult_from_win32(ERROR_INVALID_FUNCTION))
    }
}

} // verus!
